//! Result rows of the SQLite connection layer: each row shares the column
//! list of its statement, and columns carry their parsed declared type.

use crate::sql::SqlValueView;
use crate::records::SqlValue;
use crate::text::str_eq;
use std::sync::Arc;
use vstd::prelude::*;

verus! {

/// Storage class named by a column's declared type.
#[derive(Debug, Copy, Clone, PartialEq, Eq, Structural)]
pub enum ValueType {
    Integer,
    Real,
    Text,
    Blob,
    Null,
}

/// The storage class a declared type token names, if any.
pub open spec fn value_type_of(s: Seq<char>) -> Option<ValueType> {
    if s == "TEXT"@ {
        Some(ValueType::Text)
    } else if s == "INTEGER"@ {
        Some(ValueType::Integer)
    } else if s == "BLOB"@ {
        Some(ValueType::Blob)
    } else if s == "NULL"@ {
        Some(ValueType::Null)
    } else if s == "REAL"@ {
        Some(ValueType::Real)
    } else {
        None
    }
}

impl ValueType {
    /// Parses a declared type token: `TEXT`, `INTEGER`, `BLOB`, `NULL` or `REAL`.
    pub fn from_decl_type(s: &str) -> (r: Option<ValueType>)
        ensures
            r == value_type_of(s@),
    {
        if str_eq(s, "TEXT") {
            Some(ValueType::Text)
        } else if str_eq(s, "INTEGER") {
            Some(ValueType::Integer)
        } else if str_eq(s, "BLOB") {
            Some(ValueType::Blob)
        } else if str_eq(s, "NULL") {
            Some(ValueType::Null)
        } else if str_eq(s, "REAL") {
            Some(ValueType::Real)
        } else {
            None
        }
    }
}

impl core::str::FromStr for ValueType {
    type Err = ();

    fn from_str(s: &str) -> Result<ValueType, ()> {
        match ValueType::from_decl_type(s) {
            Some(t) => Ok(t),
            None => Err(()),
        }
    }
}

/// A result column: its name and its declared type, where one was parsed.
#[derive(Debug)]
pub struct Column {
    pub name: String,
    pub decl_type: Option<ValueType>,
}

impl Column {
    /// A column named `name` whose declared type token is `decl_type`.
    pub fn new(name: String, decl_type: Option<&str>) -> (r: Column)
        ensures
            r.name == name,
            r.decl_type == match decl_type {
                Some(d) => value_type_of(d@),
                None => None,
            },
    {
        let t = match decl_type {
            Some(d) => ValueType::from_decl_type(d),
            None => None,
        };
        Column { name, decl_type: t }
    }
}

/// Failures of row access.
#[derive(Debug)]
pub enum RowError {
    /// The column index is out of range or the column has no declared type.
    InvalidColumnType(usize, String),
    IndexOutOfBounds(usize),
}

/// Relies on `Arc::clone`: another handle to the same value.
#[verifier::external_body]
fn share<T>(a: &Arc<T>) -> (r: Arc<T>)
    ensures
        r == *a,
{
    Arc::clone(a)
}

/// One result row.
#[derive(Debug)]
pub struct Row {
    values: Vec<SqlValue>,
    columns: Arc<Vec<Column>>,
}

/// All rows of a statement, sharing one column list.
#[derive(Debug)]
pub struct Rows {
    rows: Vec<Row>,
    columns: Arc<Vec<Column>>,
}

fn copy_value(v: &SqlValue) -> (r: SqlValue)
    ensures
        r@ == v@,
{
    match v {
        SqlValue::Null => SqlValue::Null,
        SqlValue::Integer(i) => SqlValue::Integer(*i),
        SqlValue::Real(b) => SqlValue::Real(*b),
        SqlValue::Text(s) => SqlValue::Text(s.clone()),
        SqlValue::Blob(b) => SqlValue::Blob(b.clone()),
    }
}

fn name_list(cols: &Vec<Column>) -> (r: Vec<String>)
    ensures
        r@.len() == cols@.len(),
        forall|i: int| 0 <= i < cols@.len() ==> #[trigger] r@[i] == cols@[i].name,
{
    let mut out: Vec<String> = Vec::new();
    let mut i: usize = 0;
    while i < cols.len()
        invariant
            i <= cols@.len(),
            out@.len() == i,
            forall|j: int| 0 <= j < i ==> #[trigger] out@[j] == cols@[j].name,
        decreases cols@.len() - i,
    {
        out.push(cols[i].name.clone());
        i = i + 1;
    }
    out
}

impl Row {
    pub closed spec fn values_view(&self) -> Seq<SqlValueView> {
        self.values@.map_values(|v: SqlValue| v@)
    }

    pub closed spec fn columns_view(&self) -> Seq<Column> {
        self.columns@
    }

    /// A row of `values` under the shared `columns`.
    pub fn from_values(values: Vec<SqlValue>, columns: Arc<Vec<Column>>) -> (r: Row)
        ensures
            r.values_view() == values@.map_values(|v: SqlValue| v@),
            r.columns_view() == columns@,
    {
        Row { values, columns }
    }

    /// The value at `idx`.
    pub fn get_value(&self, idx: usize) -> (r: Result<SqlValue, RowError>)
        ensures
            idx < self.values_view().len() ==> (r matches Ok(v) && v@ == self.values_view()[idx as int]),
            idx >= self.values_view().len() ==> (r matches Err(e) && e == RowError::IndexOutOfBounds(idx)),
    {
        if idx < self.values.len() {
            Ok(copy_value(&self.values[idx]))
        } else {
            Err(RowError::IndexOutOfBounds(idx))
        }
    }

    /// Number of values.
    pub fn column_count(&self) -> (r: usize)
        ensures
            r == self.values_view().len(),
    {
        self.values.len()
    }

    /// Names of the statement's columns.
    pub fn column_names(&self) -> (r: Vec<String>)
        ensures
            r@.len() == self.columns_view().len(),
            forall|i: int| 0 <= i < r@.len() ==> #[trigger] r@[i] == self.columns_view()[i].name,
    {
        name_list(&self.columns)
    }

    /// Name of column `idx`, if there is one.
    pub fn column_name(&self, idx: usize) -> (r: Option<&str>)
        ensures
            idx < self.columns_view().len() ==> (r matches Some(n) && n@ == self.columns_view()[idx as int].name@),
            idx >= self.columns_view().len() ==> r is None,
    {
        if idx < self.columns.len() {
            Some(self.columns[idx].name.as_str())
        } else {
            None
        }
    }
}

impl Rows {
    pub closed spec fn rows_view(&self) -> Seq<Row> {
        self.rows@
    }

    pub closed spec fn columns_view(&self) -> Seq<Column> {
        self.columns@
    }

    /// Rows of `values`, each under the one shared column list.
    pub fn from_values(columns: Vec<Column>, values: Vec<Vec<SqlValue>>) -> (r: Rows)
        ensures
            r.columns_view() == columns@,
            r.rows_view().len() == values@.len(),
            forall|i: int| 0 <= i < values@.len() ==> (#[trigger] r.rows_view()[i]).values_view()
                == values@[i]@.map_values(|v: SqlValue| v@) && r.rows_view()[i].columns_view() == columns@,
    {
        let shared = Arc::new(columns);
        let mut rows: Vec<Row> = Vec::new();
        let mut rest = values;
        let ghost orig = rest@;
        let ghost mut taken: Seq<Vec<SqlValue>> = seq![];
        while rest.len() > 0
            invariant
                orig == taken + rest@,
                rows@.len() == taken.len(),
                forall|i: int| 0 <= i < rows@.len() ==> (#[trigger] rows@[i]).values_view() == taken[i]@.map_values(
                    |v: SqlValue| v@,
                ) && rows@[i].columns_view() == shared@,
            decreases rest@.len(),
        {
            let ghost before = rest@;
            let v = rest.remove(0);
            let ghost vg = v;
            let row = Row::from_values(v, share(&shared));
            rows.push(row);
            proof {
                taken = taken.push(vg);
            }
            assert(orig =~= taken + rest@) by {
                assert(before == seq![vg] + rest@);
            }
        }
        assert(taken =~= orig);
        Rows { rows, columns: shared }
    }

    /// Number of rows.
    pub fn len(&self) -> (r: usize)
        ensures
            r == self.rows_view().len(),
    {
        self.rows.len()
    }

    /// Row `idx`, if there is one.
    pub fn get(&self, idx: usize) -> (r: Option<&Row>)
        ensures
            idx < self.rows_view().len() ==> (r matches Some(row) && *row == self.rows_view()[idx as int]),
            idx >= self.rows_view().len() ==> r is None,
    {
        if idx < self.rows.len() {
            Some(&self.rows[idx])
        } else {
            None
        }
    }

    /// Number of columns.
    pub fn column_count(&self) -> (r: usize)
        ensures
            r == self.columns_view().len(),
    {
        self.columns.len()
    }

    /// Names of the columns.
    pub fn column_names(&self) -> (r: Vec<String>)
        ensures
            r@.len() == self.columns_view().len(),
            forall|i: int| 0 <= i < r@.len() ==> #[trigger] r@[i] == self.columns_view()[i].name,
    {
        name_list(&self.columns)
    }

    /// Name of column `idx`, if there is one.
    pub fn column_name(&self, idx: usize) -> (r: Option<&str>)
        ensures
            idx < self.columns_view().len() ==> (r matches Some(n) && n@ == self.columns_view()[idx as int].name@),
            idx >= self.columns_view().len() ==> r is None,
    {
        if idx < self.columns.len() {
            Some(self.columns[idx].name.as_str())
        } else {
            None
        }
    }

    /// Declared type of column `idx`; an error names the column when it is
    /// out of range or has no declared type.
    pub fn column_type(&self, idx: usize) -> (r: Result<ValueType, RowError>)
        ensures
            idx < self.columns_view().len() && self.columns_view()[idx as int].decl_type is Some
                ==> r == Ok::<ValueType, RowError>(self.columns_view()[idx as int].decl_type->Some_0),
            idx < self.columns_view().len() && self.columns_view()[idx as int].decl_type is None
                ==> (r matches Err(RowError::InvalidColumnType(i, n)) && i == idx && n@ == self.columns_view()[idx as int].name@),
            idx >= self.columns_view().len() ==> (r matches Err(RowError::InvalidColumnType(i, n)) && i == idx && n@ == "?"@),
    {
        if idx < self.columns.len() {
            match self.columns[idx].decl_type {
                Some(t) => Ok(t),
                None => Err(RowError::InvalidColumnType(idx, self.columns[idx].name.clone())),
            }
        } else {
            Err(RowError::InvalidColumnType(idx, "?".to_string()))
        }
    }
}

} // verus!
