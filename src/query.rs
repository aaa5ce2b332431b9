//! The structured form of a list request's query string.

use crate::text::{all_digits, digits_value, parse_i64, push_char, str_eq};
use vstd::prelude::*;
use vstd::string::*;

verus! {

/// Direction of an ordering column.
#[derive(Debug, Clone, Copy, PartialEq, Eq, Structural)]
pub enum Order {
    Ascending,
    Descending,
}

/// Comparison of a column filter.
#[derive(Debug, Clone, Copy, PartialEq, Eq, Structural)]
pub enum CompareOp {
    Equal,
    NotEqual,
    LessThan,
    LessThanEqual,
    GreaterThan,
    GreaterThanEqual,
    Like,
}

/// `filter[column][op]=value`.
#[derive(Debug, Clone)]
pub struct ColumnFilter {
    pub column: String,
    pub op: CompareOp,
    pub value: String,
}

/// One top-level filter: a column filter, or a group of them joined by OR or AND.
#[derive(Debug, Clone)]
pub enum FilterClause {
    Single(ColumnFilter),
    AnyOf(Vec<ColumnFilter>),
    AllOf(Vec<ColumnFilter>),
}

/// A parsed list request.
#[derive(Debug, Clone)]
pub struct ListQuery {
    pub limit: Option<u64>,
    pub offset: Option<u64>,
    pub cursor: Option<String>,
    pub order: Option<Vec<(String, Order)>>,
    pub count: Option<bool>,
    pub expand: Option<Vec<String>>,
    pub filters: Vec<FilterClause>,
}

impl ListQuery {
    /// The request without any parameter.
    pub fn empty() -> (r: ListQuery)
        ensures
            r.limit is None && r.offset is None && r.cursor is None && r.order is None,
            r.count is None && r.expand is None && r.filters@.len() == 0,
    {
        ListQuery {
            limit: None,
            offset: None,
            cursor: None,
            order: None,
            count: None,
            expand: None,
            filters: Vec::new(),
        }
    }
}

/// Abstract value of a [`ColumnFilter`].
pub struct ColumnFilterView {
    pub column: Seq<char>,
    pub op: CompareOp,
    pub value: Seq<char>,
}

/// Abstract value of a [`FilterClause`].
pub enum FilterClauseView {
    Single(ColumnFilterView),
    AnyOf(Seq<ColumnFilterView>),
    AllOf(Seq<ColumnFilterView>),
}

pub open spec fn filter_view(f: ColumnFilter) -> ColumnFilterView {
    ColumnFilterView { column: f.column@, op: f.op, value: f.value@ }
}

pub open spec fn clause_view(c: FilterClause) -> FilterClauseView {
    match c {
        FilterClause::Single(f) => FilterClauseView::Single(filter_view(f)),
        FilterClause::AnyOf(v) => FilterClauseView::AnyOf(v@.map_values(|f: ColumnFilter| filter_view(f))),
        FilterClause::AllOf(v) => FilterClauseView::AllOf(v@.map_values(|f: ColumnFilter| filter_view(f))),
    }
}

/// Abstract value of a parsed query string: the single filters, and the
/// members of the `$or` and `$and` groups, in order of appearance.
pub struct QueryView {
    pub limit: Option<u64>,
    pub offset: Option<u64>,
    pub cursor: Option<Seq<char>>,
    pub order: Option<Seq<(Seq<char>, Order)>>,
    pub count: Option<bool>,
    pub expand: Option<Seq<Seq<char>>>,
    pub singles: Seq<ColumnFilterView>,
    pub ors: Seq<ColumnFilterView>,
    pub ands: Seq<ColumnFilterView>,
}

pub open spec fn empty_query_view() -> QueryView {
    QueryView {
        limit: None,
        offset: None,
        cursor: None,
        order: None,
        count: None,
        expand: None,
        singles: seq![],
        ors: seq![],
        ands: seq![],
    }
}

/// Texts between commas; the empty text is one empty part.
pub open spec fn split_commas(s: Seq<char>) -> Seq<Seq<char>>
    decreases s.len(),
{
    if s.len() == 0 {
        seq![seq![]]
    } else {
        let prev = split_commas(s.drop_last());
        if s.last() == ',' {
            prev.push(seq![])
        } else {
            prev.update(prev.len() - 1, prev.last().push(s.last()))
        }
    }
}

/// `+col` ascending, `-col` descending, `col` ascending; the name must not be empty.
pub open spec fn order_term_of(t: Seq<char>) -> Option<(Seq<char>, Order)> {
    if t.len() > 1 && t[0] == '-' {
        Some((t.drop_first(), Order::Descending))
    } else if t.len() > 1 && t[0] == '+' {
        Some((t.drop_first(), Order::Ascending))
    } else if t.len() > 0 && t[0] != '-' && t[0] != '+' {
        Some((t, Order::Ascending))
    } else {
        None
    }
}

pub open spec fn order_terms_of(ts: Seq<Seq<char>>) -> Option<Seq<(Seq<char>, Order)>>
    decreases ts.len(),
{
    if ts.len() == 0 {
        Some(seq![])
    } else {
        match (order_terms_of(ts.drop_last()), order_term_of(ts.last())) {
            (Some(prev), Some(t)) => Some(prev.push(t)),
            _ => None,
        }
    }
}

/// An unsigned count: digits only, at most `i64::MAX`.
pub open spec fn count_of(v: Seq<char>) -> Option<u64> {
    if all_digits(v) && digits_value(v) <= i64::MAX {
        Some(digits_value(v) as u64)
    } else {
        None
    }
}

pub open spec fn bool_of(v: Seq<char>) -> Option<bool> {
    if v == "1"@ || v == "true"@ || v == "TRUE"@ {
        Some(true)
    } else if v == "0"@ || v == "false"@ || v == "FALSE"@ {
        Some(false)
    } else {
        None
    }
}

/// Comparison operators of `filter[col][$op]`.
pub open spec fn op_of(s: Seq<char>) -> Option<CompareOp> {
    if s == "$eq"@ {
        Some(CompareOp::Equal)
    } else if s == "$ne"@ {
        Some(CompareOp::NotEqual)
    } else if s == "$lt"@ {
        Some(CompareOp::LessThan)
    } else if s == "$le"@ || s == "$lte"@ {
        Some(CompareOp::LessThanEqual)
    } else if s == "$gt"@ {
        Some(CompareOp::GreaterThan)
    } else if s == "$ge"@ || s == "$gte"@ {
        Some(CompareOp::GreaterThanEqual)
    } else if s == "$like"@ {
        Some(CompareOp::Like)
    } else {
        None
    }
}

/// State of reading `[a][b]...`: the closed segments, the open one, a misplaced bracket.
pub struct SegState {
    pub done: Seq<Seq<char>>,
    pub open: Option<Seq<char>>,
    pub bad: bool,
}

pub open spec fn seg_state(s: Seq<char>) -> SegState
    decreases s.len(),
{
    if s.len() == 0 {
        SegState { done: seq![], open: None, bad: false }
    } else {
        let st = seg_state(s.drop_last());
        let c = s.last();
        if st.bad {
            st
        } else {
            match st.open {
                None => if c == '[' {
                    SegState { done: st.done, open: Some(seq![]), bad: false }
                } else {
                    SegState { done: st.done, open: None, bad: true }
                },
                Some(cur) => if c == ']' {
                    SegState { done: st.done.push(cur), open: None, bad: false }
                } else if c == '[' {
                    SegState { done: st.done, open: None, bad: true }
                } else {
                    SegState { done: st.done, open: Some(cur.push(c)), bad: false }
                },
            }
        }
    }
}

/// The bracketed segments of `[a][b]...`.
pub open spec fn segments(s: Seq<char>) -> Option<Seq<Seq<char>>> {
    let st = seg_state(s);
    if !st.bad && st.open is None {
        Some(st.done)
    } else {
        None
    }
}

/// Which filter list a filter key adds to.
#[derive(Debug, Clone, Copy, PartialEq, Eq, Structural)]
pub enum FilterGroup {
    Plain,
    Or,
    And,
}

pub open spec fn plain_column(c: Seq<char>) -> bool {
    c.len() > 0 && c[0] != '$'
}

pub open spec fn group_of(s: Seq<char>) -> Option<FilterGroup> {
    if s == "$or"@ {
        Some(FilterGroup::Or)
    } else if s == "$and"@ {
        Some(FilterGroup::And)
    } else {
        None
    }
}

/// A filter key: `filter[col]`, `filter[col][$op]`, `filter[$or|$and][i][col]`
/// or `filter[$or|$and][i][col][$op]`.
pub open spec fn filter_key(key: Seq<char>) -> Option<(FilterGroup, Seq<char>, CompareOp)> {
    if key.len() >= 6 && key.subrange(0, 6) == "filter"@ {
        match segments(key.subrange(6, key.len() as int)) {
            None => None,
            Some(ss) => if ss.len() == 1 && plain_column(ss[0]) {
                Some((FilterGroup::Plain, ss[0], CompareOp::Equal))
            } else if ss.len() == 2 && plain_column(ss[0]) && op_of(ss[1]) is Some {
                Some((FilterGroup::Plain, ss[0], op_of(ss[1])->Some_0))
            } else if ss.len() == 3 && group_of(ss[0]) is Some && all_digits(ss[1]) && plain_column(ss[2]) {
                Some((group_of(ss[0])->Some_0, ss[2], CompareOp::Equal))
            } else if ss.len() == 4 && group_of(ss[0]) is Some && all_digits(ss[1]) && plain_column(ss[2]) && op_of(
                ss[3],
            ) is Some {
                Some((group_of(ss[0])->Some_0, ss[2], op_of(ss[3])->Some_0))
            } else {
                None
            },
        }
    } else {
        None
    }
}

/// The query after one more `key=value` pair: `None` for a malformed filter
/// key or a value that does not parse; any other unknown key is ignored. A
/// repeated key overrides earlier ones, repeated filters accumulate.
pub open spec fn apply_pair(q: QueryView, key: Seq<char>, v: Seq<char>) -> Option<QueryView> {
    if key == "limit"@ {
        match count_of(v) {
            Some(n) => Some(QueryView { limit: Some(n), ..q }),
            None => None,
        }
    } else if key == "offset"@ {
        match count_of(v) {
            Some(n) => Some(QueryView { offset: Some(n), ..q }),
            None => None,
        }
    } else if key == "cursor"@ {
        Some(QueryView { cursor: Some(v), ..q })
    } else if key == "count"@ {
        match bool_of(v) {
            Some(b) => Some(QueryView { count: Some(b), ..q }),
            None => None,
        }
    } else if key == "order"@ {
        match order_terms_of(split_commas(v)) {
            Some(o) => Some(QueryView { order: Some(o), ..q }),
            None => None,
        }
    } else if key == "expand"@ {
        Some(QueryView { expand: Some(split_commas(v)), ..q })
    } else {
        match filter_key(key) {
            Some((FilterGroup::Plain, col, op)) => Some(
                QueryView { singles: q.singles.push(ColumnFilterView { column: col, op: op, value: v }), ..q },
            ),
            Some((FilterGroup::Or, col, op)) => Some(
                QueryView { ors: q.ors.push(ColumnFilterView { column: col, op: op, value: v }), ..q },
            ),
            Some((FilterGroup::And, col, op)) => Some(
                QueryView { ands: q.ands.push(ColumnFilterView { column: col, op: op, value: v }), ..q },
            ),
            None => if filter_prefixed(key) {
                None
            } else {
                Some(q)
            },
        }
    }
}

/// A key that names a filter, well formed or not.
pub open spec fn filter_prefixed(key: Seq<char>) -> bool {
    key.len() >= 6 && key.subrange(0, 6) == "filter"@
}

/// The query that decoded `key=value` pairs describe.
pub open spec fn query_of_pairs(ps: Seq<(Seq<char>, Seq<char>)>) -> Option<QueryView>
    decreases ps.len(),
{
    if ps.len() == 0 {
        Some(empty_query_view())
    } else {
        match query_of_pairs(ps.drop_last()) {
            None => None,
            Some(q) => apply_pair(q, ps.last().0, ps.last().1),
        }
    }
}

/// The filter clauses of a query: the single filters in order, then the
/// `$or` group, then the `$and` group, each where it has members.
pub open spec fn clauses_of(q: QueryView) -> Seq<FilterClauseView> {
    q.singles.map_values(|f: ColumnFilterView| FilterClauseView::Single(f)) + (if q.ors.len() > 0 {
        seq![FilterClauseView::AnyOf(q.ors)]
    } else {
        seq![]
    }) + (if q.ands.len() > 0 {
        seq![FilterClauseView::AllOf(q.ands)]
    } else {
        seq![]
    })
}

/// `q` is the list request that `v` describes.
pub open spec fn query_is(q: ListQuery, v: QueryView) -> bool {
    &&& q.limit == v.limit
    &&& q.offset == v.offset
    &&& match q.cursor {
        Some(c) => v.cursor == Some(c@),
        None => v.cursor is None,
    }
    &&& match q.order {
        Some(o) => v.order == Some(o@.map_values(|t: (String, Order)| (t.0@, t.1))),
        None => v.order is None,
    }
    &&& q.count == v.count
    &&& match q.expand {
        Some(e) => v.expand == Some(e@.map_values(|x: String| x@)),
        None => v.expand is None,
    }
    &&& q.filters@.map_values(|c: FilterClause| clause_view(c)) == clauses_of(v)
}

pub open spec fn pairs_view(ps: Seq<(String, String)>) -> Seq<(Seq<char>, Seq<char>)> {
    ps.map_values(|p: (String, String)| (p.0@, p.1@))
}

/// Why a query string was refused.
#[derive(Debug, Clone, Copy, PartialEq, Eq, Structural)]
pub enum QueryError {
    Invalid,
}

fn split_commas_text(s: &str) -> (r: Vec<String>)
    ensures
        r@.map_values(|x: String| x@) == split_commas(s@),
{
    let n = s.unicode_len();
    let mut out: Vec<String> = Vec::new();
    out.push(String::new());
    assert(out@.map_values(|x: String| x@) =~= split_commas(s@.subrange(0, 0)));
    let mut i: usize = 0;
    while i < n
        invariant
            n == s@.len(),
            i <= n,
            out@.len() > 0,
            out@.map_values(|x: String| x@) == split_commas(s@.subrange(0, i as int)),
        decreases n - i,
    {
        let c = s.get_char(i);
        let ghost pre = s@.subrange(0, i as int + 1);
        assert(pre.drop_last() =~= s@.subrange(0, i as int));
        assert(pre.last() == c);
        let ghost before = out@.map_values(|x: String| x@);
        if c == ',' {
            out.push(String::new());
            assert(out@.map_values(|x: String| x@) =~= before.push(seq![]));
        } else {
            match out.pop() {
                Some(mut last) => {
                    push_char(&mut last, c);
                    out.push(last);
                    assert(out@.map_values(|x: String| x@) =~= before.update(before.len() - 1, before.last().push(c)));
                },
                None => {},
            }
        }
        i = i + 1;
    }
    assert(s@.subrange(0, n as int) =~= s@);
    out
}

fn order_term_text(t: &str) -> (r: Option<(String, Order)>)
    ensures
        match (r, order_term_of(t@)) {
            (Some(x), Some(y)) => x.0@ == y.0 && x.1 == y.1,
            (None, None) => true,
            _ => false,
        },
{
    let n = t.unicode_len();
    if n == 0 {
        return None;
    }
    let c = t.get_char(0);
    if c == '-' || c == '+' {
        if n == 1 {
            return None;
        }
        let name = t.substring_char(1, n).to_string();
        assert(name@ =~= t@.drop_first());
        Some((name, if c == '-' { Order::Descending } else { Order::Ascending }))
    } else {
        Some((t.to_string(), Order::Ascending))
    }
}

fn order_terms_text(s: &str) -> (r: Option<Vec<(String, Order)>>)
    ensures
        match (r, order_terms_of(split_commas(s@))) {
            (Some(x), Some(y)) => x@.map_values(|t: (String, Order)| (t.0@, t.1)) == y,
            (None, None) => true,
            _ => false,
        },
{
    let parts = split_commas_text(s);
    let ghost pv = parts@.map_values(|x: String| x@);
    let mut out: Vec<(String, Order)> = Vec::new();
    let mut i: usize = 0;
    while i < parts.len()
        invariant
            i <= parts@.len(),
            pv == parts@.map_values(|x: String| x@),
            pv == split_commas(s@),
            order_terms_of(pv.subrange(0, i as int)) == Some(out@.map_values(|t: (String, Order)| (t.0@, t.1))),
        decreases parts@.len() - i,
    {
        let ghost pre = pv.subrange(0, i as int + 1);
        assert(pre.drop_last() =~= pv.subrange(0, i as int));
        assert(pre.last() == parts@[i as int]@);
        match order_term_text(parts[i].as_str()) {
            None => {
                proof {
                    assert(order_terms_of(pre) is None);
                    lemma_order_terms_none_grows(pv, i as int + 1);
                }
                return None;
            },
            Some(t) => {
                let ghost before = out@;
                out.push(t);
                assert(out@.map_values(|t: (String, Order)| (t.0@, t.1)) =~= before.map_values(
                    |t: (String, Order)| (t.0@, t.1)).push((out@.last().0@, out@.last().1)));
            },
        }
        i = i + 1;
    }
    assert(pv.subrange(0, parts@.len() as int) =~= pv);
    Some(out)
}

proof fn lemma_order_terms_none_grows(ts: Seq<Seq<char>>, n: int)
    requires
        0 <= n <= ts.len(),
        order_terms_of(ts.subrange(0, n)) is None,
    ensures
        order_terms_of(ts) is None,
    decreases ts.len() - n,
{
    if n < ts.len() {
        let pre = ts.subrange(0, n + 1);
        assert(pre.drop_last() =~= ts.subrange(0, n));
        lemma_order_terms_none_grows(ts, n + 1);
    } else {
        assert(ts.subrange(0, n) =~= ts);
    }
}

fn count_text(v: &str) -> (r: Option<u64>)
    ensures
        r == count_of(v@),
{
    let n = v.unicode_len();
    if n == 0 {
        return None;
    }
    let c = v.get_char(0);
    if c == '-' || c == '+' {
        return None;
    }
    proof {
        if all_digits(v@) {
            crate::text::lemma_digits_value_nonneg(v@);
        }
    }
    match parse_i64(v) {
        Some(x) => {
            if x < 0 {
                return None;
            }
            Some(x as u64)
        },
        None => None,
    }
}

fn bool_text(v: &str) -> (r: Option<bool>)
    ensures
        r == bool_of(v@),
{
    if str_eq(v, "1") || str_eq(v, "true") || str_eq(v, "TRUE") {
        Some(true)
    } else if str_eq(v, "0") || str_eq(v, "false") || str_eq(v, "FALSE") {
        Some(false)
    } else {
        None
    }
}

fn op_text(s: &str) -> (r: Option<CompareOp>)
    ensures
        r == op_of(s@),
{
    if str_eq(s, "$eq") {
        Some(CompareOp::Equal)
    } else if str_eq(s, "$ne") {
        Some(CompareOp::NotEqual)
    } else if str_eq(s, "$lt") {
        Some(CompareOp::LessThan)
    } else if str_eq(s, "$le") || str_eq(s, "$lte") {
        Some(CompareOp::LessThanEqual)
    } else if str_eq(s, "$gt") {
        Some(CompareOp::GreaterThan)
    } else if str_eq(s, "$ge") || str_eq(s, "$gte") {
        Some(CompareOp::GreaterThanEqual)
    } else if str_eq(s, "$like") {
        Some(CompareOp::Like)
    } else {
        None
    }
}

pub open spec fn seg_view(done: Seq<String>, open: Option<String>, bad: bool) -> SegState {
    SegState {
        done: done.map_values(|x: String| x@),
        open: match open {
            Some(o) => Some(o@),
            None => None,
        },
        bad: bad,
    }
}

fn segments_text(s: &str) -> (r: Option<Vec<String>>)
    ensures
        match (r, segments(s@)) {
            (Some(x), Some(y)) => x@.map_values(|t: String| t@) == y,
            (None, None) => true,
            _ => false,
        },
{
    let n = s.unicode_len();
    let mut done: Vec<String> = Vec::new();
    let mut open: Option<String> = None;
    let mut bad = false;
    assert(done@.map_values(|x: String| x@) =~= Seq::<Seq<char>>::empty());
    assert(seg_view(done@, open, bad) == seg_state(s@.subrange(0, 0)));
    let mut i: usize = 0;
    while i < n
        invariant
            n == s@.len(),
            i <= n,
            seg_view(done@, open, bad) == seg_state(s@.subrange(0, i as int)),
        decreases n - i,
    {
        let c = s.get_char(i);
        let ghost pre = s@.subrange(0, i as int + 1);
        assert(pre.drop_last() =~= s@.subrange(0, i as int));
        assert(pre.last() == c);
        let ghost before = done@;
        if !bad {
            match open {
                None => {
                    if c == '[' {
                        open = Some(String::new());
                    } else {
                        bad = true;
                    }
                },
                Some(cur) => {
                    if c == ']' {
                        done.push(cur);
                        open = None;
                        assert(done@.map_values(|x: String| x@) =~= before.map_values(|x: String| x@).push(
                            done@.last()@));
                    } else if c == '[' {
                        open = None;
                        bad = true;
                    } else {
                        let mut cur = cur;
                        push_char(&mut cur, c);
                        open = Some(cur);
                    }
                },
            }
        }
        assert(seg_view(done@, open, bad) == seg_state(pre));
        i = i + 1;
    }
    assert(s@.subrange(0, n as int) =~= s@);
    if !bad && open.is_none() {
        Some(done)
    } else {
        None
    }
}

fn digits_only(s: &str) -> (r: bool)
    ensures
        r == all_digits(s@),
{
    let n = s.unicode_len();
    if n == 0 {
        return false;
    }
    let mut i: usize = 0;
    while i < n
        invariant
            n == s@.len(),
            i <= n,
            forall|j: int| 0 <= j < i ==> crate::text::is_digit(#[trigger] s@[j]),
        decreases n - i,
    {
        let c = s.get_char(i);
        if !('0' <= c && c <= '9') {
            assert(!crate::text::is_digit(s@[i as int]));
            return false;
        }
        i = i + 1;
    }
    true
}

fn plain_column_text(c: &str) -> (r: bool)
    ensures
        r == plain_column(c@),
{
    c.unicode_len() > 0 && c.get_char(0) != '$'
}

fn group_text(s: &str) -> (r: Option<FilterGroup>)
    ensures
        r == group_of(s@),
{
    if str_eq(s, "$or") {
        Some(FilterGroup::Or)
    } else if str_eq(s, "$and") {
        Some(FilterGroup::And)
    } else {
        None
    }
}

fn filter_key_text(key: &str) -> (r: Option<(FilterGroup, String, CompareOp)>)
    ensures
        match (r, filter_key(key@)) {
            (Some(x), Some(y)) => x.0 == y.0 && x.1@ == y.1 && x.2 == y.2,
            (None, None) => true,
            _ => false,
        },
{
    let n = key.unicode_len();
    if n < 6 {
        return None;
    }
    let head = key.substring_char(0, 6);
    if !str_eq(head, "filter") {
        return None;
    }
    let rest = key.substring_char(6, n);
    let ss = match segments_text(rest) {
        None => {
            return None;
        },
        Some(ss) => ss,
    };
    let ghost sv = ss@.map_values(|t: String| t@);
    assert(sv.len() == ss@.len());
    if ss.len() == 1 {
        assert(sv[0] == ss@[0]@);
        if plain_column_text(ss[0].as_str()) {
            return Some((FilterGroup::Plain, ss[0].clone(), CompareOp::Equal));
        }
        return None;
    }
    if ss.len() == 2 {
        assert(sv[0] == ss@[0]@ && sv[1] == ss@[1]@);
        if plain_column_text(ss[0].as_str()) {
            match op_text(ss[1].as_str()) {
                Some(op) => {
                    return Some((FilterGroup::Plain, ss[0].clone(), op));
                },
                None => {
                    return None;
                },
            }
        }
        return None;
    }
    if ss.len() == 3 || ss.len() == 4 {
        assert(sv[0] == ss@[0]@ && sv[1] == ss@[1]@ && sv[2] == ss@[2]@);
        let g = match group_text(ss[0].as_str()) {
            None => {
                return None;
            },
            Some(g) => g,
        };
        if !digits_only(ss[1].as_str()) || !plain_column_text(ss[2].as_str()) {
            return None;
        }
        if ss.len() == 3 {
            return Some((g, ss[2].clone(), CompareOp::Equal));
        }
        assert(sv[3] == ss@[3]@);
        match op_text(ss[3].as_str()) {
            Some(op) => {
                return Some((g, ss[2].clone(), op));
            },
            None => {
                return None;
            },
        }
    }
    None
}

fn filter_prefix_text(key: &str) -> (r: bool)
    ensures
        r == filter_prefixed(key@),
{
    let n = key.unicode_len();
    if n < 6 {
        return false;
    }
    str_eq(key.substring_char(0, 6), "filter")
}

/// A list request being read from its query pairs.
struct QueryBuilder {
    limit: Option<u64>,
    offset: Option<u64>,
    cursor: Option<String>,
    order: Option<Vec<(String, Order)>>,
    count: Option<bool>,
    expand: Option<Vec<String>>,
    singles: Vec<ColumnFilter>,
    ors: Vec<ColumnFilter>,
    ands: Vec<ColumnFilter>,
}

spec fn builder_view(b: QueryBuilder) -> QueryView {
    QueryView {
        limit: b.limit,
        offset: b.offset,
        cursor: match b.cursor {
            Some(c) => Some(c@),
            None => None,
        },
        order: match b.order {
            Some(o) => Some(o@.map_values(|t: (String, Order)| (t.0@, t.1))),
            None => None,
        },
        count: b.count,
        expand: match b.expand {
            Some(e) => Some(e@.map_values(|x: String| x@)),
            None => None,
        },
        singles: b.singles@.map_values(|f: ColumnFilter| filter_view(f)),
        ors: b.ors@.map_values(|f: ColumnFilter| filter_view(f)),
        ands: b.ands@.map_values(|f: ColumnFilter| filter_view(f)),
    }
}

fn push_filter(v: &mut Vec<ColumnFilter>, column: String, op: CompareOp, value: &str)
    ensures
        final(v)@.map_values(|f: ColumnFilter| filter_view(f)) == old(v)@.map_values(|f: ColumnFilter| filter_view(f)).push(
            ColumnFilterView { column: column@, op: op, value: value@ },
        ),
{
    let ghost before = v@;
    v.push(ColumnFilter { column, op, value: value.to_string() });
    assert(v@.map_values(|f: ColumnFilter| filter_view(f)) =~= before.map_values(|f: ColumnFilter| filter_view(f)).push(
        filter_view(v@.last())));
}

impl QueryBuilder {
    fn apply(&mut self, key: &str, value: &str) -> (ok: bool)
        ensures
            ok == apply_pair(builder_view(*old(self)), key@, value@) is Some,
            ok ==> builder_view(*final(self)) == apply_pair(builder_view(*old(self)), key@, value@)->Some_0,
    {
        if str_eq(key, "limit") {
            match count_text(value) {
                Some(n) => {
                    self.limit = Some(n);
                    true
                },
                None => false,
            }
        } else if str_eq(key, "offset") {
            match count_text(value) {
                Some(n) => {
                    self.offset = Some(n);
                    true
                },
                None => false,
            }
        } else if str_eq(key, "cursor") {
            self.cursor = Some(value.to_string());
            true
        } else if str_eq(key, "count") {
            match bool_text(value) {
                Some(b) => {
                    self.count = Some(b);
                    true
                },
                None => false,
            }
        } else if str_eq(key, "order") {
            match order_terms_text(value) {
                Some(o) => {
                    self.order = Some(o);
                    true
                },
                None => false,
            }
        } else if str_eq(key, "expand") {
            self.expand = Some(split_commas_text(value));
            true
        } else {
            match filter_key_text(key) {
                Some((FilterGroup::Plain, col, op)) => {
                    push_filter(&mut self.singles, col, op, value);
                    true
                },
                Some((FilterGroup::Or, col, op)) => {
                    push_filter(&mut self.ors, col, op, value);
                    true
                },
                Some((FilterGroup::And, col, op)) => {
                    push_filter(&mut self.ands, col, op, value);
                    true
                },
                None => !filter_prefix_text(key),
            }
        }
    }
}

proof fn lemma_query_none_grows(ps: Seq<(Seq<char>, Seq<char>)>, n: int)
    requires
        0 <= n <= ps.len(),
        query_of_pairs(ps.subrange(0, n)) is None,
    ensures
        query_of_pairs(ps) is None,
    decreases ps.len() - n,
{
    if n < ps.len() {
        let pre = ps.subrange(0, n + 1);
        assert(pre.drop_last() =~= ps.subrange(0, n));
        lemma_query_none_grows(ps, n + 1);
    } else {
        assert(ps.subrange(0, n) =~= ps);
    }
}

/// Reads a list request from its decoded `key=value` pairs.
pub fn parse_query_pairs(pairs: &Vec<(String, String)>) -> (r: Result<ListQuery, QueryError>)
    ensures
        r is Err <==> query_of_pairs(pairs_view(pairs@)) is None,
        r matches Ok(q) ==> query_is(q, query_of_pairs(pairs_view(pairs@))->Some_0),
{
    let ghost pv = pairs_view(pairs@);
    let mut b = QueryBuilder {
        limit: None,
        offset: None,
        cursor: None,
        order: None,
        count: None,
        expand: None,
        singles: Vec::new(),
        ors: Vec::new(),
        ands: Vec::new(),
    };
    assert(b.singles@.map_values(|f: ColumnFilter| filter_view(f)) =~= Seq::<ColumnFilterView>::empty());
    assert(b.ors@.map_values(|f: ColumnFilter| filter_view(f)) =~= Seq::<ColumnFilterView>::empty());
    assert(b.ands@.map_values(|f: ColumnFilter| filter_view(f)) =~= Seq::<ColumnFilterView>::empty());
    assert(builder_view(b) == empty_query_view());
    let mut i: usize = 0;
    while i < pairs.len()
        invariant
            i <= pairs@.len(),
            pv == pairs_view(pairs@),
            query_of_pairs(pv.subrange(0, i as int)) == Some(builder_view(b)),
        decreases pairs@.len() - i,
    {
        let ghost pre = pv.subrange(0, i as int + 1);
        assert(pre.drop_last() =~= pv.subrange(0, i as int));
        assert(pre.last() == (pairs@[i as int].0@, pairs@[i as int].1@));
        let ok = b.apply(pairs[i].0.as_str(), pairs[i].1.as_str());
        if !ok {
            proof {
                lemma_query_none_grows(pv, i as int + 1);
            }
            return Err(QueryError::Invalid);
        }
        i = i + 1;
    }
    assert(pv.subrange(0, pairs@.len() as int) =~= pv);
    let ghost v = builder_view(b);
    let QueryBuilder { limit, offset, cursor, order, count, expand, singles, ors, ands } = b;
    let mut filters: Vec<FilterClause> = Vec::new();
    let mut rest = singles;
    let ghost sv = rest@.map_values(|f: ColumnFilter| filter_view(f));
    let ghost mut taken: Seq<ColumnFilterView> = seq![];
    while rest.len() > 0
        invariant
            sv == taken + rest@.map_values(|f: ColumnFilter| filter_view(f)),
            filters@.map_values(|c: FilterClause| clause_view(c)) == taken.map_values(
                |f: ColumnFilterView| FilterClauseView::Single(f),
            ),
        decreases rest@.len(),
    {
        let ghost before_rest = rest@;
        let ghost before_f = filters@;
        let f = rest.remove(0);
        proof {
            taken = taken.push(filter_view(f));
            assert(before_rest.map_values(|f: ColumnFilter| filter_view(f)) =~= seq![filter_view(f)] + rest@.map_values(
                |f: ColumnFilter| filter_view(f)));
        }
        filters.push(FilterClause::Single(f));
        assert(filters@.map_values(|c: FilterClause| clause_view(c)) =~= before_f.map_values(|c: FilterClause| clause_view(c)).push(
            FilterClauseView::Single(filter_view(f))));
        assert(taken.map_values(|f: ColumnFilterView| FilterClauseView::Single(f)) =~= taken.drop_last().map_values(
            |f: ColumnFilterView| FilterClauseView::Single(f)).push(FilterClauseView::Single(filter_view(f))));
    }
    assert(taken =~= sv);
    let ghost f1 = filters@.map_values(|c: FilterClause| clause_view(c));
    if ors.len() > 0 {
        filters.push(FilterClause::AnyOf(ors));
    }
    let ghost f2 = filters@.map_values(|c: FilterClause| clause_view(c));
    assert(f2 =~= f1 + (if v.ors.len() > 0 {
        seq![FilterClauseView::AnyOf(v.ors)]
    } else {
        Seq::<FilterClauseView>::empty()
    }));
    if ands.len() > 0 {
        filters.push(FilterClause::AllOf(ands));
    }
    assert(filters@.map_values(|c: FilterClause| clause_view(c)) =~= f2 + (if v.ands.len() > 0 {
        seq![FilterClauseView::AllOf(v.ands)]
    } else {
        Seq::<FilterClauseView>::empty()
    }));
    assert(filters@.map_values(|c: FilterClause| clause_view(c)) =~= clauses_of(v));
    Ok(ListQuery { limit, offset, cursor, order, count, expand, filters })
}

/// `key=value` pairs of an URL-encoded query string, decoded as
/// `application/x-www-form-urlencoded` prescribes.
pub uninterp spec fn form_pairs_of(query: Seq<char>) -> Seq<(Seq<char>, Seq<char>)>;

/// Relies on `url::form_urlencoded::parse`: splits on `&` and the first `=`,
/// and percent-decodes (with `+` as space) both sides; it depends on the
/// text alone.
#[verifier::external_body]
fn form_pairs(query: &str) -> (r: Vec<(String, String)>)
    ensures
        pairs_view(r@) == form_pairs_of(query@),
{
    url::form_urlencoded::parse(query.as_bytes()).map(|(k, v)| (k.into_owned(), v.into_owned())).collect()
}

/// Reads a list request from its raw query string.
pub fn parse_list_query(raw: &str) -> (r: Result<ListQuery, QueryError>)
    ensures
        r is Err <==> query_of_pairs(form_pairs_of(raw@)) is None,
        r matches Ok(q) ==> query_is(q, query_of_pairs(form_pairs_of(raw@))->Some_0),
{
    let pairs = form_pairs(raw);
    parse_query_pairs(&pairs)
}

} // verus!
