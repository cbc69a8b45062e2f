use vstd::prelude::*;
use vstd::string::*;
use crate::query::alter_table::{alter_table_ok, alter_table_sql, fk_name, AlterAction, AlterColumnAction, AlterTable};
use crate::query::create_index::{create_index_ok, create_index_sql, CreateIndex};
use crate::query::create_table::{create_table_ok, create_table_sql, CreateTable};
use crate::query::drop_table::{drop_table_sql, DropTable};
use crate::query::expr::Expr;
use crate::query::update::{update_ok, update_sql, Update};
use crate::query::where_clause::Where;
use crate::schema::column::Column;
use crate::schema::column_type::lossy_same;
use crate::schema::constraint::Constraint;
use crate::schema::table::Table;
use crate::schema::Schema;
use crate::to_sql::{Dialect, SqlError};
use crate::util::{clone_opt_string, str_eq, str_to_string, table_ref_ok};

mod diff;
pub mod order;
pub mod plan;

use diff::diff_tables;
pub use order::{
    dependencies, dependency_ordered, fk_targets, graph_of, is_permutation, names_a_table, topo_graph,
    unique_names, waits_on_later,
};
use order::order_creates;
pub use plan::{
    action_view, actions_view, add_required_column_plan, alter_column_plan, alters_plan, backfill_marker,
    columns_plan, creates_plan, creates_view, drops_plan, find_column, find_table, has_table,
    identical_notes, is_backfill, notes_plan, notes_view, opt_view, skipped_notes, statement_view,
    statements_view, table_plan, ActionView, StatementView,
};

verus! {

/// What the diff engine may do.
#[derive(Debug, PartialEq, Eq, Structural)]
pub struct MigrationOptions {
    pub debug: bool,
    /// Drop tables that are no longer wanted; without it a drop is only noted.
    pub allow_destructive: bool,
}

/// One schema-change statement.
#[derive(Debug, PartialEq, Eq)]
pub enum Statement {
    CreateTable(CreateTable),
    CreateIndex(CreateIndex),
    AlterTable(AlterTable),
    DropTable(DropTable),
    Update(Update),
}

/// A note about a table for which no statement was emitted.
#[derive(Debug, PartialEq, Eq)]
pub enum DebugResults {
    TablesIdentical(String),
    SkippedDropTable(String),
}

/// The statements that turn one schema into another, and notes on what was left alone.
#[derive(Debug, PartialEq, Eq)]
pub struct Migration {
    pub statements: Vec<Statement>,
    pub debug_results: Vec<DebugResults>,
}

/// The new tables of the first `n` statements.
pub open spec fn created_tables(v: Seq<Statement>, n: int) -> Seq<CreateTable> {
    Seq::new(n as nat, |i: int| v[i]->CreateTable_0)
}

/// `r` is the migration from tables `cur` to tables `des`: first a CREATE TABLE for
/// each wanted table that does not exist yet, ordered by their references (when
/// their names are distinct); then the changes to existing tables, in wanted order;
/// then the drops, in current order; and the notes.
pub open spec fn is_migration(cur: Seq<Table>, des: Seq<Table>, allow_destructive: bool, r: Migration) -> bool {
    let creates = creates_plan(cur, des);
    let rest = alters_plan(cur, des) + drops_plan(cur, des, allow_destructive);
    let nc = creates.len() as int;
    &&& r.statements@.len() == nc + rest.len()
    &&& forall|i: int| 0 <= i < rest.len() ==> #[trigger] statement_view(r.statements@[nc + i]) == rest[i]
    &&& forall|m: int| 0 <= m < nc ==> (#[trigger] r.statements@[m]) is CreateTable
    &&& exists|p: Seq<int>|
        is_permutation(p, nc) && forall|m: int|
            0 <= m < nc ==> #[trigger] statement_view(r.statements@[m]) == creates[p[m]]
    &&& unique_names(created_tables(r.statements@, nc)) ==> exists|k: int|
        dependency_ordered(created_tables(r.statements@, nc), k)
    &&& notes_view(r.debug_results@) == notes_plan(cur, des, allow_destructive)
}

/// Computes the migration that turns the `current` schema into the `desired` one.
pub fn migrate(current: Schema, desired: Schema, options: &MigrationOptions) -> (r: Migration)
    ensures
        is_migration(current.tables@, desired.tables@, options.allow_destructive, r),
{
    let Schema { tables: cur } = current;
    let Schema { tables: des } = desired;
    let (creates, rest, notes) = diff_tables(&cur, des, options.allow_destructive);
    let ghost cv = creates@;
    let ordered = order_creates(creates);
    let ghost ov = ordered@;
    let nc = ordered.len();
    let mut ordered = ordered;
    let mut statements: Vec<Statement> = Vec::new();
    let mut i: usize = 0;
    while i < nc
        invariant
            nc == ov.len(),
            i <= nc,
            ordered@ == ov.subrange(i as int, nc as int),
            statements@.len() == i,
            forall|m: int| 0 <= m < i ==> #[trigger] statements@[m] == Statement::CreateTable(ov[m]),
        decreases nc - i,
    {
        let c = ordered.remove(0);
        proof {
            assert(c == ov[i as int]);
            assert(ordered@ =~= ov.subrange(i as int + 1, nc as int));
        }
        statements.push(Statement::CreateTable(c));
        i += 1;
    }
    let mut rest = rest;
    let ghost rv = rest@;
    statements.append(&mut rest);
    let r = Migration { statements, debug_results: notes };
    proof {
        let creates = creates_plan(cur@, des@);
        let nc = creates.len() as int;
        assert(created_tables(r.statements@, nc) =~= ov);
        assert forall|q: int| 0 <= q < rv.len() implies #[trigger] statement_view(r.statements@[nc + q]) == (alters_plan(cur@, des@) + drops_plan(cur@, des@, options.allow_destructive))[q] by {
            assert(r.statements@[nc + q] == rv[q]);
            assert(statements_view(rv)[q] == statement_view(rv[q]));
        }
        let p = choose|p: Seq<int>|
            is_permutation(p, cv.len() as int) && forall|m: int|
                0 <= m < ov.len() ==> #[trigger] ov[m] == cv[p[m]];
        assert forall|m: int| 0 <= m < nc implies #[trigger] statement_view(r.statements@[m]) == creates[p[m]] by {
            assert(r.statements@[m] == Statement::CreateTable(ov[m]));
            assert(ov[m] == cv[p[m]]);
            assert(creates_view(cv)[p[m]] == statement_view(Statement::CreateTable(cv[p[m]])));
        }
        if unique_names(ov) {
            assert forall|a: int, b: int| 0 <= a < b < cv.len() implies (#[trigger] cv[a]).name@ != (#[trigger] cv[b]).name@ by {
                assert(p.contains(a));
                assert(p.contains(b));
                let ma = choose|m: int| 0 <= m < p.len() && p[m] == a;
                let mb = choose|m: int| 0 <= m < p.len() && p[m] == b;
                assert(ov[ma] == cv[a]);
                assert(ov[mb] == cv[b]);
                if ma < mb {
                    assert(ov[ma].name@ != ov[mb].name@);
                } else {
                    assert(ov[mb].name@ != ov[ma].name@);
                }
            }
        }
    }
    r
}

impl Schema {
    /// The migration from this schema to `desired`.
    pub fn migrate_to(self, desired: Schema, options: &MigrationOptions) -> (r: Migration)
        ensures
            is_migration(self.tables@, desired.tables@, options.allow_destructive, r),
    {
        migrate(self, desired, options)
    }
}

/// The schema a statement is qualified by.
pub open spec fn statement_schema(s: Statement) -> Option<String> {
    match s {
        Statement::CreateTable(c) => c.schema,
        Statement::CreateIndex(c) => c.schema,
        Statement::AlterTable(a) => a.schema,
        Statement::DropTable(d) => d.schema,
        Statement::Update(u) => u.schema,
    }
}

/// The table a statement is about.
pub open spec fn statement_table(s: Statement) -> Seq<char> {
    match s {
        Statement::CreateTable(c) => c.name@,
        Statement::CreateIndex(c) => c.table@,
        Statement::AlterTable(a) => a.name@,
        Statement::DropTable(d) => d.name@,
        Statement::Update(u) => u.table@,
    }
}

/// The statement with its schema replaced.
pub open spec fn with_schema(s: Statement, schema: Option<String>) -> Statement {
    match s {
        Statement::CreateTable(c) => Statement::CreateTable(CreateTable { schema, ..c }),
        Statement::CreateIndex(c) => Statement::CreateIndex(CreateIndex { schema, ..c }),
        Statement::AlterTable(a) => Statement::AlterTable(AlterTable { schema, ..a }),
        Statement::DropTable(d) => Statement::DropTable(DropTable { schema, ..d }),
        Statement::Update(u) => Statement::Update(Update { schema, ..u }),
    }
}

impl Statement {
    /// Qualifies the statement by the schema named `schema_name`.
    pub fn set_schema(&mut self, schema_name: &str)
        ensures
            statement_schema(*final(self)) is Some,
            statement_schema(*final(self))->0@ == schema_name@,
            *final(self) == with_schema(*old(self), statement_schema(*final(self))),
    {
        let name = str_to_string(schema_name);
        match self {
            Statement::CreateTable(s) => {
                s.schema = Some(name);
            },
            Statement::AlterTable(s) => {
                s.schema = Some(name);
            },
            Statement::DropTable(s) => {
                s.schema = Some(name);
            },
            Statement::CreateIndex(s) => {
                s.schema = Some(name);
            },
            Statement::Update(s) => {
                s.schema = Some(name);
            },
        }
    }

    /// The statement is a backfill that has to be completed by hand: an UPDATE that
    /// sets a column to the backfill marker on every row.
    pub fn needs_manual_completion(&self) -> (r: bool)
        ensures
            r == (*self is Update && is_backfill(self->Update_0)),
    {
        proof {
            reveal_strlit("/* TODO set a value before setting the column to null */");
            reveal_strlit("true");
        }
        match self {
            Statement::Update(u) => {
                if u.ctes.len() != 0 || u.values.len() != 1 {
                    return false;
                }
                if !str_eq(
                    u.values[0].1.as_str(),
                    "/* TODO set a value before setting the column to null */",
                ) {
                    return false;
                }
                match &u.where_ {
                    Where::And(v) => {
                        if v.len() != 1 {
                            return false;
                        }
                        match &v[0] {
                            Where::Expr(Expr::Raw(t)) => str_eq(t.as_str(), "true"),
                            _ => false,
                        }
                    },
                    _ => false,
                }
            },
            _ => false,
        }
    }

    pub fn table_name(&self) -> (r: &str)
        ensures
            r@ == statement_table(*self),
    {
        match self {
            Statement::CreateTable(s) => s.name.as_str(),
            Statement::AlterTable(s) => s.name.as_str(),
            Statement::DropTable(s) => s.name.as_str(),
            Statement::CreateIndex(s) => s.table.as_str(),
            Statement::Update(s) => s.table.as_str(),
        }
    }
}

impl DebugResults {
    pub fn table_name(&self) -> (r: &str)
        ensures
            r@ == match *self {
                DebugResults::TablesIdentical(n) => n@,
                DebugResults::SkippedDropTable(n) => n@,
            },
    {
        match self {
            DebugResults::TablesIdentical(name) => name.as_str(),
            DebugResults::SkippedDropTable(name) => name.as_str(),
        }
    }
}

impl Migration {
    pub fn is_empty(&self) -> (r: bool)
        ensures
            r == (self.statements@.len() == 0),
    {
        self.statements.len() == 0
    }

    /// Qualifies every statement by the schema named `schema_name`.
    pub fn set_schema(&mut self, schema_name: &str)
        ensures
            final(self).statements@.len() == old(self).statements@.len(),
            final(self).debug_results == old(self).debug_results,
            forall|i: int|
                0 <= i < old(self).statements@.len() ==> {
                    let s = #[trigger] final(self).statements@[i];
                    &&& statement_schema(s) is Some
                    &&& statement_schema(s)->0@ == schema_name@
                    &&& s == with_schema(old(self).statements@[i], statement_schema(s))
                },
    {
        let mut i: usize = 0;
        while i < self.statements.len()
            invariant
                i <= self.statements.len(),
                self.statements@.len() == old(self).statements@.len(),
                self.debug_results == old(self).debug_results,
                forall|j: int|
                    0 <= j < old(self).statements@.len() ==> {
                        let s = #[trigger] self.statements@[j];
                        &&& j < i ==> statement_schema(s) is Some && statement_schema(s)->0@ == schema_name@
                            && s == with_schema(old(self).statements@[j], statement_schema(s))
                        &&& j >= i ==> s == old(self).statements@[j]
                    },
            decreases self.statements.len() - i,
        {
            self.statements[i].set_schema(schema_name);
            i += 1;
        }
    }
}

/// The SQL text of a statement.
pub open spec fn statement_sql(s: Statement, d: Dialect) -> Seq<char> {
    match s {
        Statement::CreateTable(c) => create_table_sql(c, d),
        Statement::CreateIndex(c) => create_index_sql(c),
        Statement::AlterTable(a) => alter_table_sql(a, d),
        Statement::DropTable(t) => drop_table_sql(t),
        Statement::Update(u) => update_sql(u, d),
    }
}

/// Every identifier the statement quotes can be quoted.
pub open spec fn statement_ok(s: Statement, d: Dialect) -> bool {
    match s {
        Statement::CreateTable(c) => create_table_ok(c),
        Statement::CreateIndex(c) => create_index_ok(c),
        Statement::AlterTable(a) => alter_table_ok(a),
        Statement::DropTable(t) => table_ref_ok(t.schema, t.name@),
        Statement::Update(u) => update_ok(u, d),
    }
}

impl Statement {
    pub fn write_sql(&self, buf: &mut String, dialect: Dialect) -> (r: Result<(), SqlError>)
        ensures
            r is Ok <==> statement_ok(*self, dialect),
            r is Ok ==> final(buf)@ == old(buf)@ + statement_sql(*self, dialect),
            !(*self is Update) ==> (r matches Err(e) ==> e == SqlError::QuoteInIdentifier),
    {
        match self {
            Statement::CreateTable(c) => c.write_sql(buf, dialect),
            Statement::CreateIndex(c) => c.write_sql(buf, dialect),
            Statement::AlterTable(a) => a.write_sql(buf, dialect),
            Statement::DropTable(d) => d.write_sql(buf, dialect),
            Statement::Update(u) => u.write_sql(buf, dialect),
        }
    }

    /// The statement's SQL text, or an error when an identifier cannot be quoted.
    pub fn to_sql(&self, dialect: Dialect) -> (r: Result<String, SqlError>)
        ensures
            r is Ok <==> statement_ok(*self, dialect),
            r matches Ok(s) ==> s@ == statement_sql(*self, dialect),
            !(*self is Update) ==> (r matches Err(e) ==> e == SqlError::QuoteInIdentifier),
    {
        let mut buf = String::new();
        match self.write_sql(&mut buf, dialect) {
            Ok(()) => Ok(buf),
            Err(e) => Err(e),
        }
    }
}

impl Default for MigrationOptions {
    fn default() -> (r: Self)
        ensures
            !r.debug,
            !r.allow_destructive,
    {
        MigrationOptions { debug: false, allow_destructive: false }
    }
}

impl MigrationOptions {
    /// No debug output, and no destructive changes.
    pub fn new() -> (r: Self)
        ensures
            !r.debug,
            !r.allow_destructive,
    {
        MigrationOptions { debug: false, allow_destructive: false }
    }
}

impl crate::to_sql::ToSql for Statement {
    open spec fn sql(&self, dialect: Dialect) -> Seq<char> {
        statement_sql(*self, dialect)
    }

    open spec fn renders(&self, dialect: Dialect) -> bool {
        statement_ok(*self, dialect)
    }

    fn write_sql(&self, buf: &mut String, dialect: Dialect) -> (r: Result<(), SqlError>) {
        Statement::write_sql(self, buf, dialect)
    }
}

} // verus!
