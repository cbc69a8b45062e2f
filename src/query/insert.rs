use vstd::prelude::*;
use vstd::string::*;
use crate::query::expr::{expr_ok, expr_sql, Expr};
use crate::query::select::{select_ok, select_sql, Select};
use crate::to_sql::{Dialect, SqlError};
use crate::util::{all_quotable, decimal, push_decimal, push_quoted, push_quoted_sequence, push_table_name, quotable, quoted, quoted_list, str_to_string, table_ref, table_ref_ok};

verus! {

/// What an INSERT does when a row conflicts with an existing one.
#[derive(Debug, PartialEq, Eq)]
pub enum OnConflict {
    Ignore,
    /// Leave the engine to raise its own error.
    Abort,
    /// SQLite only.
    Replace,
    /// Postgres only: set the listed columns to the given expressions.
    DoUpdate { conflict: Conflict, updates: Vec<(String, Expr)> },
    /// Postgres only: set every inserted column that is neither a conflict
    /// column nor ignored, to the proposed value or to its override.
    /// A later override of a column replaces an earlier one.
    DoUpdateAllRows {
        conflict: Conflict,
        alternate_values: Vec<(String, Expr)>,
        ignore_columns: Vec<String>,
    },
}

/// The target of an ON CONFLICT clause.
#[derive(Debug, PartialEq, Eq)]
pub enum Conflict {
    Columns(Vec<String>),
    ConstraintName(String),
    NoTarget,
}

/// One row of literal values, as raw SQL text.
#[derive(Debug, PartialEq, Eq)]
pub struct Value(pub Vec<String>);

/// The rows an INSERT adds.
#[derive(Debug, PartialEq, Eq)]
pub enum Values {
    Values(Vec<Value>),
    Select(Select),
    DefaultValues,
}

/// An INSERT statement.
#[derive(Debug, PartialEq, Eq)]
pub struct Insert {
    pub schema: Option<String>,
    pub table: String,
    pub columns: Vec<String>,
    pub values: Values,
    pub on_conflict: OnConflict,
    pub returning: Vec<String>,
}

/// Texts joined by a separator.
pub open spec fn join_texts(v: Seq<Seq<char>>, sep: Seq<char>) -> Seq<char>
    decreases v.len(),
{
    if v.len() == 0 {
        Seq::empty()
    } else if v.len() == 1 {
        v[0]
    } else {
        join_texts(v.drop_last(), sep) + sep + v.last()
    }
}

pub open spec fn contains_name(v: Seq<String>, c: Seq<char>) -> bool {
    exists|k: int| 0 <= k < v.len() && (#[trigger] v[k])@ == c
}

/// The override for a column: the last one given for it.
pub open spec fn alternate_for(alts: Seq<(String, Expr)>, c: Seq<char>) -> Option<Expr>
    decreases alts.len(),
{
    if alts.len() == 0 {
        None
    } else if alts.last().0@ == c {
        Some(alts.last().1)
    } else {
        alternate_for(alts.drop_last(), c)
    }
}

/// A column is set on conflict unless ignored or part of the conflict target.
pub open spec fn updated_on_conflict(c: Seq<char>, conflict: Conflict, ignore: Seq<String>) -> bool {
    !contains_name(ignore, c) && match conflict {
        Conflict::Columns(cols) => !contains_name(cols@, c),
        _ => true,
    }
}

/// `"c" = <override>` or `"c" = excluded."c"`.
pub open spec fn update_all_item(c: Seq<char>, alts: Seq<(String, Expr)>) -> Seq<char> {
    quoted(c) + " = "@ + match alternate_for(alts, c) {
        Some(e) => expr_sql(e),
        None => "excluded."@ + quoted(c),
    }
}

/// The assignments of a do-update-all-rows clause, one per updated column in order.
pub open spec fn update_all_items(
    cols: Seq<String>,
    conflict: Conflict,
    alts: Seq<(String, Expr)>,
    ignore: Seq<String>,
) -> Seq<Seq<char>>
    decreases cols.len(),
{
    if cols.len() == 0 {
        Seq::empty()
    } else {
        let prev = update_all_items(cols.drop_last(), conflict, alts, ignore);
        if updated_on_conflict(cols.last()@, conflict, ignore) {
            prev.push(update_all_item(cols.last()@, alts))
        } else {
            prev
        }
    }
}

pub open spec fn update_all_ok(
    cols: Seq<String>,
    conflict: Conflict,
    alts: Seq<(String, Expr)>,
    ignore: Seq<String>,
) -> bool {
    forall|i: int|
        0 <= i < cols.len() && updated_on_conflict((#[trigger] cols[i])@, conflict, ignore) ==> quotable(
            cols[i]@,
        ) && match alternate_for(alts, cols[i]@) {
            Some(e) => expr_ok(e),
            None => true,
        }
}

pub open spec fn updates_items(v: Seq<(String, Expr)>) -> Seq<Seq<char>> {
    Seq::new(v.len(), |i: int| quoted(v[i].0@) + " = "@ + expr_sql(v[i].1))
}

pub open spec fn updates_ok(v: Seq<(String, Expr)>) -> bool {
    forall|i: int| 0 <= i < v.len() ==> quotable((#[trigger] v[i]).0@) && expr_ok(v[i].1)
}

pub open spec fn conflict_sql(c: Conflict) -> Seq<char> {
    match c {
        Conflict::Columns(cols) => "("@ + quoted_list(cols@, ", "@) + ")"@,
        Conflict::ConstraintName(n) => "ON CONSTRAINT "@ + quoted(n@),
        Conflict::NoTarget => Seq::empty(),
    }
}

pub open spec fn conflict_ok(c: Conflict) -> bool {
    match c {
        Conflict::Columns(cols) => all_quotable(cols@),
        Conflict::ConstraintName(n) => quotable(n@),
        Conflict::NoTarget => true,
    }
}

pub open spec fn row_sql(v: Value) -> Seq<char> {
    "("@ + join_texts(Seq::new(v.0@.len(), |i: int| v.0@[i]@), ", "@) + ")"@
}

pub open spec fn rows_sql(v: Seq<Value>) -> Seq<char> {
    join_texts(Seq::new(v.len(), |i: int| row_sql(v[i])), ", "@)
}

pub open spec fn values_sql(v: Values, d: Dialect) -> Seq<char>
    decreases v,
{
    match v {
        Values::Values(rows) => rows_sql(rows@),
        Values::Select(s) => select_sql(s, d),
        Values::DefaultValues => "DEFAULT VALUES"@,
    }
}

pub open spec fn values_ok(v: Values, d: Dialect) -> bool
    decreases v,
{
    match v {
        Values::Select(s) => select_ok(s, d),
        _ => true,
    }
}

/// The placeholder for the `k`-th parameter: `$k` for Postgres, `?` otherwise.
pub open spec fn placeholder(k: nat, d: Dialect) -> Seq<char> {
    if d == Dialect::Postgres {
        "$"@ + decimal(k)
    } else {
        "?"@
    }
}

pub open spec fn insert_head_sql(c: OnConflict, d: Dialect) -> Seq<char> {
    if d == Dialect::Sqlite {
        match c {
            OnConflict::Ignore => "INSERT OR IGNORE INTO "@,
            OnConflict::Abort => "INSERT OR ABORT INTO "@,
            _ => "INSERT OR REPLACE INTO "@,
        }
    } else {
        "INSERT INTO "@
    }
}

pub open spec fn conflict_clause_sql(i: Insert, d: Dialect) -> Seq<char> {
    if d == Dialect::Postgres {
        match i.on_conflict {
            OnConflict::Ignore => " ON CONFLICT DO NOTHING"@,
            OnConflict::DoUpdate { conflict, updates } => " ON CONFLICT "@ + conflict_sql(conflict)
                + " DO UPDATE SET "@ + join_texts(updates_items(updates@), ", "@),
            OnConflict::DoUpdateAllRows { conflict, alternate_values, ignore_columns } =>
                " ON CONFLICT "@ + conflict_sql(conflict) + " DO UPDATE SET "@ + join_texts(
                update_all_items(i.columns@, conflict, alternate_values@, ignore_columns@),
                ", "@,
            ),
            _ => Seq::empty(),
        }
    } else {
        Seq::empty()
    }
}

/// The conflict policy has a form in the dialect, and what it quotes can be quoted.
pub open spec fn conflict_clause_ok(i: Insert, d: Dialect) -> bool {
    &&& d == Dialect::Sqlite ==> !(i.on_conflict is DoUpdate || i.on_conflict is DoUpdateAllRows)
    &&& d == Dialect::Postgres ==> match i.on_conflict {
        OnConflict::Replace => false,
        OnConflict::DoUpdate { conflict, updates } => conflict_ok(conflict) && updates_ok(updates@),
        OnConflict::DoUpdateAllRows { conflict, alternate_values, ignore_columns } => conflict_ok(
            conflict,
        ) && update_all_ok(i.columns@, conflict, alternate_values@, ignore_columns@),
        _ => true,
    }
}

/// The SQL text of an INSERT.
pub open spec fn insert_sql(i: Insert, d: Dialect) -> Seq<char>
    decreases i,
{
    insert_head_sql(i.on_conflict, d) + table_ref(i.schema, i.table@) + " ("@ + quoted_list(
        i.columns@,
        ", "@,
    ) + ") VALUES "@ + values_sql(i.values, d) + conflict_clause_sql(i, d) + (if i.returning@.len()
        > 0 {
        " RETURNING "@ + quoted_list(i.returning@, ", "@)
    } else {
        Seq::empty()
    })
}

pub open spec fn insert_ok(i: Insert, d: Dialect) -> bool
    decreases i,
{
    &&& conflict_clause_ok(i, d)
    &&& table_ref_ok(i.schema, i.table@)
    &&& all_quotable(i.columns@)
    &&& values_ok(i.values, d)
    &&& all_quotable(i.returning@)
}

/// The error an INSERT fails with when its conflict policy has no form in the dialect.
pub open spec fn conflict_error(i: Insert, d: Dialect) -> Option<SqlError> {
    if d == Dialect::Sqlite && (i.on_conflict is DoUpdate || i.on_conflict is DoUpdateAllRows) {
        Some(SqlError::SqliteDoUpdate)
    } else if d == Dialect::Postgres && i.on_conflict is Replace {
        Some(SqlError::PostgresReplace)
    } else {
        None
    }
}

pub(crate) fn contains_string(v: &Vec<String>, c: &String) -> (r: bool)
    ensures
        r == contains_name(v@, c@),
{
    let mut i: usize = 0;
    while i < v.len()
        invariant
            i <= v.len(),
            forall|k: int| 0 <= k < i ==> (#[trigger] v@[k])@ != c@,
        decreases v.len() - i,
    {
        if crate::util::str_eq(v[i].as_str(), c.as_str()) {
            return true;
        }
        i += 1;
    }
    false
}

fn find_alternate<'a>(alts: &'a Vec<(String, Expr)>, c: &String) -> (r: Option<&'a Expr>)
    ensures
        r matches Some(e) ==> alternate_for(alts@, c@) == Some(*e),
        r is None ==> alternate_for(alts@, c@) is None,
{
    let mut i: usize = alts.len();
    assert(alts@.take(alts@.len() as int) =~= alts@);
    while i > 0
        invariant
            i <= alts.len(),
            alternate_for(alts@, c@) == alternate_for(alts@.take(i as int), c@),
        decreases i,
    {
        proof { assert(alts@.take(i as int).drop_last() =~= alts@.take(i as int - 1)); }
        if crate::util::str_eq(alts[i - 1].0.as_str(), c.as_str()) {
            return Some(&alts[i - 1].1);
        }
        i -= 1;
    }
    None
}

fn write_conflict(c: &Conflict, buf: &mut String) -> (r: Result<(), SqlError>)
    ensures
        r is Ok <==> conflict_ok(*c),
        r is Ok ==> final(buf)@ == old(buf)@ + conflict_sql(*c),
{
    proof { reveal_strlit("("); reveal_strlit(")"); reveal_strlit(", "); reveal_strlit("ON CONSTRAINT "); }
    match c {
        Conflict::Columns(cols) => {
            buf.append("(");
            push_quoted_sequence(buf, cols, ", ")?;
            buf.append(")");
            assert(final(buf)@ =~= old(buf)@ + conflict_sql(*c));
            Ok(())
        },
        Conflict::ConstraintName(name) => {
            buf.append("ON CONSTRAINT ");
            let res = push_quoted(buf, name.as_str());
            assert(res is Ok ==> final(buf)@ =~= old(buf)@ + conflict_sql(*c));
            res
        },
        Conflict::NoTarget => Ok(()),
    }
}

fn write_updates(v: &Vec<(String, Expr)>, buf: &mut String, dialect: Dialect) -> (r: Result<(), SqlError>)
    ensures
        r is Ok <==> updates_ok(v@),
        r is Ok ==> final(buf)@ == old(buf)@ + join_texts(updates_items(v@), ", "@),
{
    proof { reveal_strlit(", "); reveal_strlit(" = "); }
    let mut i: usize = 0;
    while i < v.len()
        invariant
            i <= v.len(),
            updates_ok(v@.take(i as int)),
            buf@ == old(buf)@ + join_texts(updates_items(v@.take(i as int)), ", "@),
        decreases v.len() - i,
    {
        proof {
            assert(updates_items(v@.take(i as int + 1)).drop_last() =~= updates_items(v@.take(i as int)));
        }
        if i > 0 {
            buf.append(", ");
        }
        let res = push_quoted(buf, v[i].0.as_str());
        if res.is_err() {
            assert(!quotable(v@[i as int].0@));
            return res;
        }
        buf.append(" = ");
        let res = v[i].1.write_sql(buf, dialect);
        if res.is_err() {
            return res;
        }
        proof {
            assert(buf@ =~= old(buf)@ + join_texts(updates_items(v@.take(i as int + 1)), ", "@));
            assert(updates_ok(v@.take(i as int + 1)));
        }
        i += 1;
    }
    proof { assert(v@.take(i as int) =~= v@); }
    Ok(())
}

fn write_update_all(
    cols: &Vec<String>,
    conflict: &Conflict,
    alts: &Vec<(String, Expr)>,
    ignore: &Vec<String>,
    buf: &mut String,
    dialect: Dialect,
) -> (r: Result<(), SqlError>)
    ensures
        r is Ok <==> update_all_ok(cols@, *conflict, alts@, ignore@),
        r is Ok ==> final(buf)@ == old(buf)@ + join_texts(
            update_all_items(cols@, *conflict, alts@, ignore@),
            ", "@,
        ),
{
    proof { reveal_strlit(", "); reveal_strlit(" = "); reveal_strlit("excluded."); }
    let mut n: usize = 0;
    let mut i: usize = 0;
    assert(cols@.take(0) =~= Seq::<String>::empty());
    while i < cols.len()
        invariant
            i <= cols.len(),
            n == update_all_items(cols@.take(i as int), *conflict, alts@, ignore@).len(),
            n <= i,
            update_all_ok(cols@.take(i as int), *conflict, alts@, ignore@),
            buf@ == old(buf)@ + join_texts(
                update_all_items(cols@.take(i as int), *conflict, alts@, ignore@),
                ", "@,
            ),
        decreases cols.len() - i,
    {
        proof { assert(cols@.take(i as int + 1).drop_last() =~= cols@.take(i as int)); }
        let c = &cols[i];
        let in_ignore = contains_string(ignore, c);
        let in_target = match conflict {
            Conflict::Columns(cc) => contains_string(cc, c),
            _ => false,
        };
        if !in_ignore && !in_target {
            if n > 0 {
                buf.append(", ");
            }
            let res = push_quoted(buf, c.as_str());
            if res.is_err() {
                assert(!update_all_ok(cols@, *conflict, alts@, ignore@)) by {
                    assert(cols@[i as int] == *c);
                }
                return res;
            }
            buf.append(" = ");
            match find_alternate(alts, c) {
                Some(e) => {
                    let res = e.write_sql(buf, dialect);
                    if res.is_err() {
                        assert(!update_all_ok(cols@, *conflict, alts@, ignore@)) by {
                            assert(cols@[i as int] == *c);
                        }
                        return res;
                    }
                },
                None => {
                    buf.append("excluded.");
                    let _ = push_quoted(buf, c.as_str());
                },
            }
            proof {
                let items = update_all_items(cols@.take(i as int), *conflict, alts@, ignore@);
                assert(update_all_items(cols@.take(i as int + 1), *conflict, alts@, ignore@)
                    == items.push(update_all_item(c@, alts@)));
                assert(items.push(update_all_item(c@, alts@)).drop_last() =~= items);
                assert(buf@ =~= old(buf)@ + join_texts(items.push(update_all_item(c@, alts@)), ", "@));
            }
            n += 1;
        }
        proof {
            assert forall|k: int|
                0 <= k < i + 1 && updated_on_conflict(
                    (#[trigger] cols@.take(i as int + 1)[k])@,
                    *conflict,
                    ignore@,
                ) implies quotable(cols@.take(i as int + 1)[k]@) && match alternate_for(
                alts@,
                cols@.take(i as int + 1)[k]@,
            ) {
                Some(e) => expr_ok(e),
                None => true,
            } by {
                if k < i {
                    assert(cols@.take(i as int + 1)[k] == cols@.take(i as int)[k]);
                }
            }
        }
        i += 1;
    }
    proof { assert(cols@.take(i as int) =~= cols@); }
    Ok(())
}

impl Default for OnConflict {
    /// Leave conflicts to the engine.
    fn default() -> (r: Self)
        ensures
            r == OnConflict::Abort,
    {
        OnConflict::Abort
    }
}

impl OnConflict {
    /// Update every other column on a conflict over the given columns.
    pub fn do_update_all_rows(columns: &[&str]) -> (r: Self)
        ensures
            r matches OnConflict::DoUpdateAllRows { conflict, alternate_values, ignore_columns }
                && conflict is Columns && conflict->Columns_0@.len() == columns@.len()
                && (forall|i: int| 0 <= i < columns@.len() ==> (#[trigger] conflict->Columns_0@[i])@ == columns@[i]@)
                && alternate_values@.len() == 0 && ignore_columns@.len() == 0,
    {
        OnConflict::DoUpdateAllRows {
            conflict: Conflict::Columns(strs_to_strings(columns)),
            alternate_values: Vec::new(),
            ignore_columns: Vec::new(),
        }
    }

    /// Update every other column on a conflict over the primary key.
    pub fn do_update_on_pkey(pkey: &str) -> (r: Self)
        ensures
            r matches OnConflict::DoUpdateAllRows { conflict, alternate_values, ignore_columns }
                && conflict is Columns && conflict->Columns_0@.len() == 1 && conflict->Columns_0@[0]@ == pkey@
                && alternate_values@.len() == 0 && ignore_columns@.len() == 0,
    {
        OnConflict::DoUpdateAllRows {
            conflict: Conflict::Columns(vec![str_to_string(pkey)]),
            alternate_values: Vec::new(),
            ignore_columns: Vec::new(),
        }
    }

    /// Sets the value a column takes on conflict, in place of the proposed one.
    pub fn alternate_value(self, column: &str, value: Expr) -> (r: Self)
        requires
            self is DoUpdateAllRows,
        ensures
            r matches OnConflict::DoUpdateAllRows { conflict, alternate_values, ignore_columns }
                && conflict == self->DoUpdateAllRows_conflict && ignore_columns
                == self->DoUpdateAllRows_ignore_columns && alternate_for(alternate_values@, column@)
                == Some(value) && forall|c: Seq<char>|
                c != column@ ==> alternate_for(alternate_values@, c) == alternate_for(
                    self->DoUpdateAllRows_alternate_values@,
                    c,
                ),
    {
        match self {
            OnConflict::DoUpdateAllRows { conflict, alternate_values, ignore_columns } => {
                let mut alternate_values = alternate_values;
                let ghost before = alternate_values@;
                alternate_values.push((str_to_string(column), value));
                assert(alternate_values@.drop_last() =~= before);
                OnConflict::DoUpdateAllRows { conflict, alternate_values, ignore_columns }
            },
            other => other,
        }
    }
}

pub(crate) fn strs_to_strings(v: &[&str]) -> (r: Vec<String>)
    ensures
        r@.len() == v@.len(),
        forall|i: int| 0 <= i < v@.len() ==> (#[trigger] r@[i])@ == v@[i]@,
{
    let mut r: Vec<String> = Vec::new();
    let mut i: usize = 0;
    while i < v.len()
        invariant
            i <= v@.len(),
            r@.len() == i,
            forall|j: int| 0 <= j < i ==> (#[trigger] r@[j])@ == v@[j]@,
        decreases v@.len() - i,
    {
        r.push(str_to_string(v[i]));
        i += 1;
    }
    r
}

impl Conflict {
    pub fn columns(t: &[&str]) -> (r: Self)
        ensures
            r matches Conflict::Columns(cols) && cols@.len() == t@.len() && forall|i: int|
                0 <= i < t@.len() ==> (#[trigger] cols@[i])@ == t@[i]@,
    {
        Conflict::Columns(strs_to_strings(t))
    }

    pub fn as_columns(&self) -> (r: Option<&Vec<String>>)
        ensures
            self is Columns ==> (r is Some && *r->0 == self->Columns_0),
            !(self is Columns) ==> r is None,
    {
        match self {
            Conflict::Columns(c) => Some(c),
            _ => None,
        }
    }
}

impl Value {
    pub fn with(values: &[&str]) -> (r: Self)
        ensures
            r.0@.len() == values@.len(),
            forall|i: int| 0 <= i < values@.len() ==> (#[trigger] r.0@[i])@ == values@[i]@,
    {
        Value(strs_to_strings(values))
    }

    pub fn new() -> (r: Self)
        ensures
            r.0@.len() == 0,
    {
        Value(Vec::new())
    }

    pub fn column(self, value: &str) -> (r: Self)
        ensures
            r.0@.len() == self.0@.len() + 1,
            r.0@.drop_last() == self.0@,
            r.0@.last()@ == value@,
    {
        let mut v = self.0;
        v.push(str_to_string(value));
        assert(v@.drop_last() =~= self.0@);
        Value(v)
    }

    /// Appends a placeholder for each of `count` parameters, numbered from 1.
    pub fn placeholders(self, count: usize, dialect: Dialect) -> (r: Self)
        ensures
            r.0@.len() == self.0@.len() + count,
            r.0@.take(self.0@.len() as int) == self.0@,
            forall|k: int|
                0 <= k < count ==> (#[trigger] r.0@[self.0@.len() + k])@ == placeholder(
                    (k + 1) as nat,
                    dialect,
                ),
    {
        proof { reveal_strlit("$"); reveal_strlit("?"); }
        let mut v = self.0;
        let mut i: usize = 0;
        while i < count
            invariant
                i <= count,
                v@.len() == self.0@.len() + i,
                v@.take(self.0@.len() as int) == self.0@,
                forall|k: int|
                    0 <= k < i ==> (#[trigger] v@[self.0@.len() + k])@ == placeholder(
                        (k + 1) as nat,
                        dialect,
                    ),
            decreases count - i,
        {
            let mut p = String::new();
            if dialect == Dialect::Postgres {
                p.append("$");
                push_decimal(&mut p, i + 1);
            } else {
                p.append("?");
            }
            assert(p@ =~= placeholder((i + 1) as nat, dialect));
            let ghost before = v@;
            v.push(p);
            assert(v@.take(self.0@.len() as int) =~= before.take(self.0@.len() as int));
            i += 1;
        }
        Value(v)
    }

    #[verifier::spinoff_prover]
    pub fn write_sql(&self, buf: &mut String)
        ensures
            final(buf)@ == old(buf)@ + row_sql(*self),
    {
        proof { reveal_strlit("("); reveal_strlit(")"); reveal_strlit(", "); }
        buf.append("(");
        let ghost start = buf@;
        let mut i: usize = 0;
        while i < self.0.len()
            invariant
                i <= self.0.len(),
                buf@ == start + join_texts(Seq::new(i as nat, |k: int| self.0@[k]@), ", "@),
            decreases self.0.len() - i,
        {
            proof {
                assert(Seq::new((i + 1) as nat, |k: int| self.0@[k]@).drop_last() =~= Seq::new(
                    i as nat,
                    |k: int| self.0@[k]@,
                ));
            }
            if i > 0 {
                buf.append(", ");
            }
            buf.append(self.0[i].as_str());
            i += 1;
        }
        buf.append(")");
        assert(Seq::new(i as nat, |k: int| self.0@[k]@) =~= Seq::new(self.0@.len(), |k: int| self.0@[k]@));
        assert(final(buf)@ =~= old(buf)@ + row_sql(*self));
    }
}

impl Values {
    pub fn new_value(value: Value) -> (r: Self)
        ensures
            r matches Values::Values(v) && v@ == seq![value],
    {
        Values::Values(vec![value])
    }

    pub fn select(select: Select) -> (r: Self)
        ensures
            r == Values::Select(select),
    {
        Values::Select(select)
    }

    pub fn default_values() -> (r: Self)
        ensures
            r == Values::DefaultValues,
    {
        Values::DefaultValues
    }

    /// Adds a row to literal rows.
    pub fn value(self, value: Value) -> (r: Self)
        requires
            self is Values,
        ensures
            r matches Values::Values(v) && v@ == self->Values_0@.push(value),
    {
        match self {
            Values::Values(v) => {
                let mut v = v;
                v.push(value);
                Values::Values(v)
            },
            other => other,
        }
    }

    #[verifier::spinoff_prover]
    pub fn write_sql(&self, buf: &mut String, dialect: Dialect) -> (r: Result<(), SqlError>)
        ensures
            r is Ok <==> values_ok(*self, dialect),
            r is Ok ==> final(buf)@ == old(buf)@ + values_sql(*self, dialect),
        decreases self,
    {
        proof { reveal_strlit(", "); reveal_strlit("DEFAULT VALUES"); }
        match self {
            Values::Values(rows) => {
                let mut i: usize = 0;
                while i < rows.len()
                    invariant
                        i <= rows.len(),
                        buf@ == old(buf)@ + join_texts(Seq::new(i as nat, |k: int| row_sql(rows@[k])), ", "@),
                    decreases rows.len() - i,
                {
                    proof {
                        assert(Seq::new((i + 1) as nat, |k: int| row_sql(rows@[k])).drop_last() =~= Seq::new(
                            i as nat,
                            |k: int| row_sql(rows@[k]),
                        ));
                    }
                    if i > 0 {
                        buf.append(", ");
                    }
                    rows[i].write_sql(buf);
                    i += 1;
                }
                assert(Seq::new(i as nat, |k: int| row_sql(rows@[k])) =~= Seq::new(rows@.len(), |k: int| row_sql(rows@[k])));
                Ok(())
            },
            Values::Select(s) => s.write_sql(buf, dialect),
            Values::DefaultValues => {
                buf.append("DEFAULT VALUES");
                Ok(())
            },
        }
    }
}

fn write_insert_head(c: &OnConflict, buf: &mut String, dialect: Dialect) -> (r: Result<(), SqlError>)
    ensures
        r is Ok <==> !(dialect == Dialect::Sqlite && (*c is DoUpdate || *c is DoUpdateAllRows)) && !(
        dialect == Dialect::Postgres && *c is Replace),
        r is Ok ==> final(buf)@ == old(buf)@ + insert_head_sql(*c, dialect),
        dialect == Dialect::Sqlite && (*c is DoUpdate || *c is DoUpdateAllRows) ==> r == Err::<(), SqlError>(SqlError::SqliteDoUpdate),
        dialect == Dialect::Postgres && *c is Replace ==> r == Err::<(), SqlError>(SqlError::PostgresReplace),
{
    proof {
        reveal_strlit("INSERT OR IGNORE INTO "); reveal_strlit("INSERT OR ABORT INTO ");
        reveal_strlit("INSERT OR REPLACE INTO "); reveal_strlit("INSERT INTO ");
    }
    if dialect == Dialect::Sqlite {
        match c {
            OnConflict::Ignore => buf.append("INSERT OR IGNORE INTO "),
            OnConflict::Abort => buf.append("INSERT OR ABORT INTO "),
            OnConflict::Replace => buf.append("INSERT OR REPLACE INTO "),
            _ => {
                return Err(SqlError::SqliteDoUpdate);
            },
        }
    } else {
        if dialect == Dialect::Postgres {
            if let OnConflict::Replace = c {
                return Err(SqlError::PostgresReplace);
            }
        }
        buf.append("INSERT INTO ");
    }
    Ok(())
}

impl Insert {
    pub fn new(table: &str) -> (r: Self)
        ensures
            r.schema is None,
            r.table@ == table@,
            r.columns@.len() == 0,
            r.values == Values::DefaultValues,
            r.on_conflict == OnConflict::Abort,
            r.returning@.len() == 0,
    {
        Insert {
            schema: None,
            table: str_to_string(table),
            columns: Vec::new(),
            values: Values::DefaultValues,
            on_conflict: OnConflict::Abort,
            returning: Vec::new(),
        }
    }

    pub fn schema(self, schema: &str) -> (r: Self)
        ensures
            r.schema matches Some(s) && s@ == schema@,
            r == (Insert { schema: r.schema, ..self }),
    {
        Insert { schema: Some(str_to_string(schema)), ..self }
    }

    pub fn column(self, column: &str) -> (r: Self)
        ensures
            r.columns@.len() == self.columns@.len() + 1,
            r.columns@.drop_last() == self.columns@,
            r.columns@.last()@ == column@,
            r == (Insert { columns: r.columns, ..self }),
    {
        let mut s = self;
        s.columns.push(str_to_string(column));
        assert(s.columns@.drop_last() =~= self.columns@);
        s
    }

    pub fn values(self, value: Values) -> (r: Self)
        ensures
            r == (Insert { values: value, ..self }),
    {
        Insert { values: value, ..self }
    }

    pub fn columns(self, columns: &[&str]) -> (r: Self)
        ensures
            r.columns@.len() == columns@.len(),
            forall|i: int| 0 <= i < columns@.len() ==> (#[trigger] r.columns@[i])@ == columns@[i]@,
            r == (Insert { columns: r.columns, ..self }),
    {
        Insert { columns: strs_to_strings(columns), ..self }
    }

    /// One row holding a placeholder per column.
    pub fn placeholder_for_each_column(self, dialect: Dialect) -> (r: Self)
        ensures
            r.values matches Values::Values(rows) && rows@.len() == 1 && rows@[0].0@.len()
                == self.columns@.len() && forall|k: int|
                0 <= k < self.columns@.len() ==> (#[trigger] rows@[0].0@[k])@ == placeholder(
                    (k + 1) as nat,
                    dialect,
                ),
            r == (Insert { values: r.values, ..self }),
    {
        let n = self.columns.len();
        let v = Value::new().placeholders(n, dialect);
        assert forall|k: int| 0 <= k < n implies (#[trigger] v.0@[k])@ == placeholder((k + 1) as nat, dialect) by {
            assert(v.0@[0 + k] == v.0@[k]);
        }
        Insert { values: Values::new_value(v), ..self }
    }

    pub fn one_value(self, values: &[&str]) -> (r: Self)
        ensures
            r.values matches Values::Values(rows) && rows@.len() == 1 && rows@[0].0@.len()
                == values@.len() && forall|k: int|
                0 <= k < values@.len() ==> (#[trigger] rows@[0].0@[k])@ == values@[k]@,
            r == (Insert { values: r.values, ..self }),
    {
        Insert { values: Values::Values(vec![Value::with(values)]), ..self }
    }

    pub fn on_conflict(self, on_conflict: OnConflict) -> (r: Self)
        ensures
            r == (Insert { on_conflict, ..self }),
    {
        Insert { on_conflict, ..self }
    }

    pub fn returning(self, returning: &[&str]) -> (r: Self)
        ensures
            r.returning@.len() == returning@.len(),
            forall|i: int| 0 <= i < returning@.len() ==> (#[trigger] r.returning@[i])@ == returning@[i]@,
            r == (Insert { returning: r.returning, ..self }),
    {
        Insert { returning: strs_to_strings(returning), ..self }
    }

    #[verifier::spinoff_prover]
    fn write_conflict_clause(&self, buf: &mut String, dialect: Dialect) -> (r: Result<(), SqlError>)
        requires
            !(dialect == Dialect::Postgres && self.on_conflict is Replace),
        ensures
            r is Ok <==> (dialect == Dialect::Postgres ==> match self.on_conflict {
                OnConflict::DoUpdate { conflict, updates } => conflict_ok(conflict) && updates_ok(updates@),
                OnConflict::DoUpdateAllRows { conflict, alternate_values, ignore_columns } => conflict_ok(
                    conflict,
                ) && update_all_ok(self.columns@, conflict, alternate_values@, ignore_columns@),
                _ => true,
            }),
            r is Ok ==> final(buf)@ == old(buf)@ + conflict_clause_sql(*self, dialect),
    {
        proof {
            reveal_strlit(" ON CONFLICT DO NOTHING"); reveal_strlit(" ON CONFLICT ");
            reveal_strlit(" DO UPDATE SET ");
        }
        let ghost mid = buf@;
        if dialect == Dialect::Postgres {
            match &self.on_conflict {
                OnConflict::Ignore => buf.append(" ON CONFLICT DO NOTHING"),
                OnConflict::DoUpdate { conflict, updates } => {
                    buf.append(" ON CONFLICT ");
                    let res = write_conflict(conflict, buf);
                    if res.is_err() {
                        return res;
                    }
                    buf.append(" DO UPDATE SET ");
                    let res = write_updates(updates, buf, dialect);
                    if res.is_err() {
                        return res;
                    }
                },
                OnConflict::DoUpdateAllRows { conflict, alternate_values, ignore_columns } => {
                    buf.append(" ON CONFLICT ");
                    let res = write_conflict(conflict, buf);
                    if res.is_err() {
                        return res;
                    }
                    buf.append(" DO UPDATE SET ");
                    let res = write_update_all(
                        &self.columns,
                        conflict,
                        alternate_values,
                        ignore_columns,
                        buf,
                        dialect,
                    );
                    if res.is_err() {
                        return res;
                    }
                },
                _ => {},
            }
        }
        assert(buf@ =~= mid + conflict_clause_sql(*self, dialect));
        Ok(())
    }

    #[verifier::spinoff_prover]
    #[verifier::rlimit(100)]
    pub fn write_sql(&self, buf: &mut String, dialect: Dialect) -> (r: Result<(), SqlError>)
        ensures
            r is Ok <==> insert_ok(*self, dialect),
            r is Ok ==> final(buf)@ == old(buf)@ + insert_sql(*self, dialect),
            conflict_error(*self, dialect) matches Some(e) ==> r == Err::<(), SqlError>(e),
        decreases self,
    {
        proof {
            reveal_strlit("INSERT OR IGNORE INTO "); reveal_strlit("INSERT OR ABORT INTO ");
            reveal_strlit("INSERT OR REPLACE INTO "); reveal_strlit("INSERT INTO ");
            reveal_strlit(" ("); reveal_strlit(", "); reveal_strlit(") VALUES ");
            reveal_strlit(" ON CONFLICT DO NOTHING"); reveal_strlit(" ON CONFLICT ");
            reveal_strlit(" DO UPDATE SET "); reveal_strlit(" RETURNING ");
        }
        let res = write_insert_head(&self.on_conflict, buf, dialect);
        if res.is_err() {
            return res;
        }
        let res = push_table_name(buf, &self.schema, self.table.as_str());
        if res.is_err() {
            return res;
        }
        buf.append(" (");
        let res = push_quoted_sequence(buf, &self.columns, ", ");
        if res.is_err() {
            return res;
        }
        buf.append(") VALUES ");
        let res = self.values.write_sql(buf, dialect);
        if res.is_err() {
            return res;
        }
        let res = self.write_conflict_clause(buf, dialect);
        if res.is_err() {
            return res;
        }
        if self.returning.len() > 0 {
            buf.append(" RETURNING ");
            let res = push_quoted_sequence(buf, &self.returning, ", ");
            if res.is_err() {
                return res;
            }
        }
        assert(final(buf)@ =~= old(buf)@ + insert_sql(*self, dialect));
        Ok(())
    }

    /// The statement's SQL text, or why it cannot be rendered for the dialect.
    pub fn to_sql(&self, dialect: Dialect) -> (r: Result<String, SqlError>)
        ensures
            r is Ok <==> insert_ok(*self, dialect),
            r matches Ok(s) ==> s@ == insert_sql(*self, dialect),
            conflict_error(*self, dialect) matches Some(e) ==> r == Err::<String, SqlError>(e),
    {
        let mut buf = String::new();
        match self.write_sql(&mut buf, dialect) {
            Ok(()) => Ok(buf),
            Err(e) => Err(e),
        }
    }
}

impl crate::to_sql::ToSql for Insert {
    open spec fn sql(&self, dialect: Dialect) -> Seq<char> {
        insert_sql(*self, dialect)
    }

    open spec fn renders(&self, dialect: Dialect) -> bool {
        insert_ok(*self, dialect)
    }

    fn write_sql(&self, buf: &mut String, dialect: Dialect) -> (r: Result<(), SqlError>) {
        Insert::write_sql(self, buf, dialect)
    }
}

} // verus!
