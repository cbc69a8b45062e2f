use vstd::prelude::*;
use vstd::string::*;
use crate::schema::column::Column;
use crate::schema::table::Table;
use crate::schema::Schema;
use crate::schema::column_type::{names_type, Type, TypeError};
use crate::util::str_eq;

verus! {

/// One row of a database's column catalogue.
#[derive(Debug, PartialEq, Eq)]
pub struct SchemaColumn {
    pub table_name: String,
    pub column_name: String,
    pub ordinal_position: i32,
    pub is_nullable: String,
    pub data_type: String,
    pub numeric_precision: Option<i32>,
    pub numeric_scale: Option<i32>,
    pub inner_type: Option<String>,
}

/// One row of a database's table catalogue.
#[derive(Debug, PartialEq, Eq)]
pub struct TableSchema {
    pub table_schema: String,
    pub table_name: String,
}

/// The catalogue row describes an array whose element type cannot be read.
pub open spec fn bad_array(c: SchemaColumn) -> bool {
    c.data_type@ == "ARRAY"@ && match c.inner_type {
        None => true,
        Some(i) => i@ == "ARRAY"@,
    }
}

/// `c` is the column that catalogue row `row` describes: its name, its nullability
/// (`YES`), and its type, read from the native type name (for an array, from the
/// element type; a numeric with precision and scale, as those).
pub open spec fn column_from_row(row: SchemaColumn, c: Column) -> bool {
    &&& c.name == row.column_name
    &&& c.nullable == (row.is_nullable@ == "YES"@)
    &&& !c.primary_key
    &&& c.default is None
    &&& c.constraint is None
    &&& row.data_type@ == "ARRAY"@ ==> c.typ is Array && names_type(
        row.inner_type->0@,
        *c.typ->Array_0,
    )
    &&& row.data_type@ != "ARRAY"@ && row.data_type@ == "numeric"@
        && row.numeric_precision is Some && row.numeric_scale is Some ==> c.typ
        == Type::Numeric(
        row.numeric_precision->0 as u8,
        row.numeric_scale->0 as u8,
    )
    &&& row.data_type@ != "ARRAY"@ && !(row.data_type@ == "numeric"@
        && row.numeric_precision is Some && row.numeric_scale is Some) ==> names_type(
        row.data_type@,
        c.typ,
    )
}

impl SchemaColumn {
    /// The column that a catalogue row describes.
    pub fn into_column(self) -> (r: Result<Column, TypeError>)
        ensures
            r is Err <==> bad_array(self),
            r matches Ok(c) ==> column_from_row(self, c),
    {
        proof {
            reveal_strlit("YES");
            reveal_strlit("ARRAY");
            reveal_strlit("numeric");
        }
        let nullable = str_eq(self.is_nullable.as_str(), "YES");
        let typ = if str_eq(self.data_type.as_str(), "ARRAY") {
            match &self.inner_type {
                None => {
                    return Err(TypeError::MissingArrayElement);
                },
                Some(inner) => {
                    let t = Type::from_str(inner.as_str())?;
                    Type::Array(Box::new(t))
                },
            }
        } else if str_eq(self.data_type.as_str(), "numeric") && self.numeric_precision.is_some()
            && self.numeric_scale.is_some() {
            let p = self.numeric_precision.unwrap();
            let s = self.numeric_scale.unwrap();
            Type::Numeric(p as u8, s as u8)
        } else {
            Type::from_str(self.data_type.as_str())?
        };
        Ok(
            Column {
                name: self.column_name,
                typ,
                nullable,
                primary_key: false,
                default: None,
                constraint: None,
            },
        )
    }
}

impl std::convert::TryFrom<SchemaColumn> for Column {
    type Error = TypeError;

    /// See `SchemaColumn::into_column`, whose contract states the result.
    fn try_from(c: SchemaColumn) -> (r: Result<Column, TypeError>) {
        c.into_column()
    }
}

impl vstd::std_specs::convert::TryFromSpecImpl<SchemaColumn> for Column {
    open spec fn obeys_try_from_spec() -> bool {
        false
    }

    open spec fn try_from_spec(c: SchemaColumn) -> Result<Column, TypeError> {
        arbitrary()
    }
}

/// Catalogue rows split into runs of consecutive rows of one table.
pub open spec fn table_runs(rows: Seq<SchemaColumn>) -> Seq<Seq<SchemaColumn>>
    decreases rows.len(),
{
    if rows.len() == 0 {
        Seq::empty()
    } else {
        let runs = table_runs(rows.drop_last());
        let row = rows.last();
        if runs.len() > 0 && runs.last()[0].table_name@ == row.table_name@ {
            runs.update(runs.len() - 1, runs.last().push(row))
        } else {
            runs.push(seq![row])
        }
    }
}

/// `t` is the table a run of catalogue rows describes.
pub open spec fn table_of_run(t: Table, run: Seq<SchemaColumn>) -> bool {
    &&& t.schema is None
    &&& t.name@ == run[0].table_name@
    &&& t.indexes@.len() == 0
    &&& t.columns@.len() == run.len()
    &&& forall|k: int| 0 <= k < run.len() ==> column_from_row(run[k], #[trigger] t.columns@[k])
}

/// The names of `names`, in order and once each, that are neither in `present` nor
/// earlier in `names`.
pub open spec fn missing_names(present: Seq<Seq<char>>, names: Seq<String>) -> Seq<Seq<char>>
    decreases names.len(),
{
    if names.len() == 0 {
        Seq::empty()
    } else {
        let prev = missing_names(present, names.drop_last());
        let n = names.last()@;
        if present.contains(n) || prev.contains(n) {
            prev
        } else {
            prev.push(n)
        }
    }
}

/// `ts` are the tables of the catalogue: one per run of rows, then an empty table
/// for each listed table name that has no row.
pub open spec fn catalogue_tables(ts: Seq<Table>, rows: Seq<SchemaColumn>, names: Seq<String>) -> bool {
    let runs = table_runs(rows);
    let extra = missing_names(Seq::new(runs.len(), |i: int| runs[i][0].table_name@), names);
    &&& ts.len() == runs.len() + extra.len()
    &&& forall|i: int| 0 <= i < runs.len() ==> table_of_run(#[trigger] ts[i], runs[i])
    &&& forall|j: int|
        0 <= j < extra.len() ==> {
            let t = #[trigger] ts[runs.len() + j];
            &&& t.schema is None
            &&& t.name@ == extra[j]
            &&& t.columns@.len() == 0
            &&& t.indexes@.len() == 0
        }
}

fn has_table_named(ts: &Vec<Table>, name: &String) -> (r: bool)
    ensures
        r == exists|k: int| 0 <= k < ts@.len() && (#[trigger] ts@[k]).name@ == name@,
{
    let mut i: usize = 0;
    while i < ts.len()
        invariant
            i <= ts.len(),
            forall|k: int| 0 <= k < i ==> (#[trigger] ts@[k]).name@ != name@,
        decreases ts.len() - i,
    {
        if str_eq(ts[i].name.as_str(), name.as_str()) {
            return true;
        }
        i += 1;
    }
    false
}

impl Schema {
    /// The schema that a database's catalogue describes: its column rows, grouped
    /// into tables by runs of consecutive rows, and the names of its tables, of which
    /// those without columns become empty tables.
    pub fn from_catalogue(rows: Vec<SchemaColumn>, table_names: &Vec<String>) -> (r: Result<Schema, TypeError>)
        ensures
            r is Err <==> exists|i: int| 0 <= i < rows@.len() && bad_array(#[trigger] rows@[i]),
            r matches Ok(s) ==> catalogue_tables(s.tables@, rows@, table_names@),
    {
        let ghost orig = rows@;
        let n = rows.len();
        let mut rest = rows;
        let mut tables: Vec<Table> = Vec::new();
        let mut i: usize = 0;
        assert(orig.take(0) =~= Seq::<SchemaColumn>::empty());
        while i < n
            invariant
                n == orig.len(),
                i <= n,
                rest@ == orig.subrange(i as int, n as int),
                orig == rows@,
                tables@.len() == table_runs(orig.take(i as int)).len(),
                forall|t: int|
                    0 <= t < tables@.len() ==> table_of_run(#[trigger] tables@[t], table_runs(orig.take(i as int))[t]),
                forall|q: int| 0 <= q < i ==> !bad_array(#[trigger] orig[q]),
            decreases n - i,
        {
            let row = rest.remove(0);
            proof {
                assert(row == orig[i as int]);
                assert(rest@ =~= orig.subrange(i as int + 1, n as int));
                assert(orig.take(i as int + 1).drop_last() =~= orig.take(i as int));
                assert(orig.take(i as int + 1).last() == row);
            }
            let ghost runs = table_runs(orig.take(i as int));
            let ghost t0 = tables@;
            let name = row.table_name.clone();
            let col = match row.into_column() {
                Ok(c) => c,
                Err(e) => {
                    assert(bad_array(orig[i as int]));
                    return Err(e);
                },
            };
            let same = tables.len() > 0 && str_eq(tables[tables.len() - 1].name.as_str(), name.as_str());
            if same {
                let mut t = tables.pop().unwrap();
                let ghost tc = t.columns@;
                t.columns.push(col);
                tables.push(t);
                proof {
                    let last = runs.len() - 1;
                    assert(runs.last() == runs[last]);
                    let nr = runs.last().push(orig[i as int]);
                    assert(table_runs(orig.take(i as int + 1)) == runs.update(last, nr));
                    assert forall|k: int| 0 <= k < nr.len() implies column_from_row(nr[k], #[trigger] t.columns@[k]) by {
                        if k < nr.len() - 1 {
                            assert(nr[k] == runs[last][k]);
                            assert(t.columns@[k] == tc[k]);
                        }
                    }
                    assert(table_of_run(t, nr));
                    assert forall|q: int| 0 <= q < tables@.len() implies table_of_run(#[trigger] tables@[q], table_runs(orig.take(i as int + 1))[q]) by {
                        if q < last {
                            assert(tables@[q] == t0[q]);
                        }
                    }
                }
            } else {
                let mut columns: Vec<Column> = Vec::new();
                columns.push(col);
                tables.push(Table { schema: None, name, columns, indexes: Vec::new() });
                proof {
                    let nr = seq![orig[i as int]];
                    assert(table_runs(orig.take(i as int + 1)) == runs.push(nr));
                    assert forall|q: int| 0 <= q < tables@.len() implies table_of_run(#[trigger] tables@[q], table_runs(orig.take(i as int + 1))[q]) by {
                        if q < t0.len() {
                            assert(tables@[q] == t0[q]);
                        }
                    }
                }
            }
            i += 1;
        }
        proof { assert(orig.take(n as int) =~= orig); }
        let ghost runs = table_runs(orig);
        let ghost present = Seq::new(runs.len(), |q: int| runs[q][0].table_name@);
        let nruns = tables.len();
        assert(present.len() == nruns);
        let mut j: usize = 0;
        assert(table_names@.take(0) =~= Seq::<String>::empty());
        while j < table_names.len()
            invariant
                j <= table_names.len(),
                nruns == runs.len(),
                present.len() == nruns,
                present == Seq::new(runs.len(), |q: int| runs[q][0].table_name@),
                orig == rows@,
                forall|q: int| 0 <= q < orig.len() ==> !bad_array(#[trigger] orig[q]),
                tables@.len() == nruns + missing_names(present, table_names@.take(j as int)).len(),
                forall|t: int| 0 <= t < nruns ==> table_of_run(#[trigger] tables@[t], runs[t]),
                forall|x: int|
                    0 <= x < missing_names(present, table_names@.take(j as int)).len() ==> {
                        let t = #[trigger] tables@[nruns + x];
                        &&& t.schema is None
                        &&& t.name@ == missing_names(present, table_names@.take(j as int))[x]
                        &&& t.columns@.len() == 0
                        &&& t.indexes@.len() == 0
                    },
            decreases table_names.len() - j,
        {
            let ghost extra = missing_names(present, table_names@.take(j as int));
            let ghost t0 = tables@;
            proof {
                assert(table_names@.take(j as int + 1).drop_last() =~= table_names@.take(j as int));
                assert(table_names@.take(j as int + 1).last() == table_names@[j as int]);
            }
            let nm = &table_names[j];
            let found = has_table_named(&tables, nm);
            proof {
                let x = nm@;
                if present.contains(x) || extra.contains(x) {
                    if present.contains(x) {
                        let q = choose|q: int| 0 <= q < present.len() && present[q] == x;
                        assert(tables@[q].name@ == x);
                    } else {
                        let q = choose|q: int| 0 <= q < extra.len() && extra[q] == x;
                        assert(tables@[nruns + q].name@ == x);
                    }
                }
                if found {
                    let k = choose|k: int| 0 <= k < tables@.len() && (#[trigger] tables@[k]).name@ == x;
                    if k < nruns {
                        assert(present[k] == x);
                    } else {
                        let x2 = k - nruns;
                        assert(tables@[nruns + x2] == tables@[k]);
                        assert(extra[x2] == x);
                    }
                }
            }
            if !found {
                tables.push(Table { schema: None, name: nm.clone(), columns: Vec::new(), indexes: Vec::new() });
                proof {
                    assert forall|t: int| 0 <= t < nruns implies table_of_run(#[trigger] tables@[t], runs[t]) by {
                        assert(tables@[t] == t0[t]);
                    }
                    let ne = extra.push(nm@);
                    assert forall|x: int| 0 <= x < ne.len() implies {
                        let t = #[trigger] tables@[nruns + x];
                        &&& t.schema is None
                        &&& t.name@ == ne[x]
                        &&& t.columns@.len() == 0
                        &&& t.indexes@.len() == 0
                    } by {
                        if x < extra.len() {
                            assert(tables@[nruns + x] == t0[nruns + x]);
                        }
                    }
                }
            }
            j += 1;
        }
        proof { assert(table_names@.take(j as int) =~= table_names@); }
        Ok(Schema { tables })
    }
}

} // verus!
