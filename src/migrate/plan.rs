use vstd::prelude::*;
use vstd::string::*;
use crate::migrate::{DebugResults, Migration, Statement};
use crate::query::alter_table::{fk_name, AlterAction, AlterColumnAction, AlterTable};
use crate::query::create_table::CreateTable;
use crate::query::update::Update;
use crate::query::where_clause::Where;
use crate::schema::column::Column;
use crate::schema::column_type::lossy_same;
use crate::schema::constraint::Constraint;
use crate::schema::table::Table;

verus! {

/// The value a column added as not nullable is first filled with: it has to be
/// completed by hand before the migration is run.
pub open spec fn backfill_marker() -> Seq<char> {
    "/* TODO set a value before setting the column to null */"@
}

/// A table change, with names by their text.
pub enum ActionView {
    AddColumn(Column),
    SetNullable(Seq<char>, bool),
    SetType(Seq<char>, crate::schema::column_type::Type),
    AddConstraint(Seq<char>, Seq<char>, Constraint),
    Other,
}

/// A statement, with names by their text.
pub enum StatementView {
    Create(Option<Seq<char>>, Seq<char>, Seq<Column>),
    Alter(Option<Seq<char>>, Seq<char>, Seq<ActionView>),
    Drop(Option<Seq<char>>, Seq<char>),
    /// Fills a column of a table with the backfill marker, on every row.
    Backfill(Option<Seq<char>>, Seq<char>, Seq<char>),
    Other,
}

pub open spec fn opt_view(o: Option<String>) -> Option<Seq<char>> {
    match o {
        Some(s) => Some(s@),
        None => None,
    }
}

pub open spec fn action_view(a: AlterAction) -> ActionView {
    match a {
        AlterAction::AddColumn { column } => ActionView::AddColumn(column),
        AlterAction::AlterColumn { name, action } => match action {
            AlterColumnAction::SetNullable(b) => ActionView::SetNullable(name@, b),
            AlterColumnAction::SetType { typ, using } => if using is None {
                ActionView::SetType(name@, typ)
            } else {
                ActionView::Other
            },
        },
        AlterAction::AddConstraint { name, column, constraint } => ActionView::AddConstraint(
            name@,
            column@,
            constraint,
        ),
    }
}

pub open spec fn actions_view(v: Seq<AlterAction>) -> Seq<ActionView> {
    Seq::new(v.len(), |i: int| action_view(v[i]))
}

/// An UPDATE that sets one column to the backfill marker on every row.
pub open spec fn is_backfill(u: Update) -> bool {
    &&& u.ctes@.len() == 0
    &&& u.values@.len() == 1
    &&& u.values@[0].1@ == backfill_marker()
    &&& u.where_ is And
    &&& u.where_->And_0@.len() == 1
    &&& u.where_->And_0@[0] is Expr
    &&& u.where_->And_0@[0]->Expr_0 is Raw
    &&& u.where_->And_0@[0]->Expr_0->Raw_0@ == "true"@
}

pub open spec fn statement_view(s: Statement) -> StatementView {
    match s {
        Statement::CreateTable(c) => StatementView::Create(opt_view(c.schema), c.name@, c.columns@),
        Statement::AlterTable(a) => StatementView::Alter(
            opt_view(a.schema),
            a.name@,
            actions_view(a.actions@),
        ),
        Statement::DropTable(d) => StatementView::Drop(opt_view(d.schema), d.name@),
        Statement::Update(u) => if is_backfill(u) {
            StatementView::Backfill(opt_view(u.schema), u.table@, u.values@[0].0@)
        } else {
            StatementView::Other
        },
        Statement::CreateIndex(_) => StatementView::Other,
    }
}

pub open spec fn statements_view(v: Seq<Statement>) -> Seq<StatementView> {
    Seq::new(v.len(), |i: int| statement_view(v[i]))
}

/// Some table of `ts` is named `name`.
pub open spec fn has_table(ts: Seq<Table>, name: Seq<char>) -> bool {
    exists|i: int| 0 <= i < ts.len() && (#[trigger] ts[i]).name@ == name
}

/// The last table of `ts` named `name`.
pub open spec fn find_table(ts: Seq<Table>, name: Seq<char>) -> Table
    decreases ts.len(),
{
    if ts.len() == 0 {
        arbitrary()
    } else if ts.last().name@ == name {
        ts.last()
    } else {
        find_table(ts.drop_last(), name)
    }
}

/// The last column of `cs` named `name`.
pub open spec fn find_column(cs: Seq<Column>, name: Seq<char>) -> Option<Column>
    decreases cs.len(),
{
    if cs.len() == 0 {
        None
    } else if cs.last().name@ == name {
        Some(cs.last())
    } else {
        find_column(cs.drop_last(), name)
    }
}

/// The changes that bring an existing column `cur` in line with the wanted column `c`
/// of table `table`: nullability, then type (an unmodelled type on either side is
/// left alone), then a missing foreign key.
pub open spec fn alter_column_plan(table: Seq<char>, cur: Column, c: Column) -> Seq<ActionView> {
    (if cur.nullable != c.nullable {
        seq![ActionView::SetNullable(c.name@, c.nullable)]
    } else {
        Seq::empty()
    }) + (if !lossy_same(cur.typ, c.typ) {
        seq![ActionView::SetType(c.name@, c.typ)]
    } else {
        Seq::empty()
    }) + (if c.constraint is Some && cur.constraint is None {
        seq![ActionView::AddConstraint(fk_name(table, c.name@), c.name@, c.constraint->0)]
    } else {
        Seq::empty()
    })
}

/// A column added as not nullable takes three statements: add it as nullable,
/// fill it with the backfill marker, then set it not null.
pub open spec fn add_required_column_plan(schema: Option<String>, table: Seq<char>, c: Column) -> Seq<StatementView> {
    seq![
        StatementView::Alter(opt_view(schema), table, seq![ActionView::AddColumn(Column { nullable: true, ..c })]),
        StatementView::Backfill(opt_view(schema), table, c.name@),
        StatementView::Alter(opt_view(schema), table, seq![ActionView::SetNullable(c.name@, false)]),
    ]
}

/// The statements emitted on their own, and the actions merged into one ALTER TABLE,
/// for the wanted columns `cs` of table `table` whose current columns are `cur`.
pub open spec fn columns_plan(cur: Seq<Column>, schema: Option<String>, table: Seq<char>, cs: Seq<Column>) -> (Seq<StatementView>, Seq<ActionView>)
    decreases cs.len(),
{
    if cs.len() == 0 {
        (Seq::empty(), Seq::empty())
    } else {
        let (st, acts) = columns_plan(cur, schema, table, cs.drop_last());
        let c = cs.last();
        match find_column(cur, c.name@) {
            Some(k) => (st, acts + alter_column_plan(table, k, c)),
            None => if c.nullable {
                (st, acts.push(ActionView::AddColumn(c)))
            } else {
                (st + add_required_column_plan(schema, table, c), acts)
            },
        }
    }
}

/// The statements for a table wanted in `t` that exists as `k`.
pub open spec fn table_plan(k: Table, t: Table) -> Seq<StatementView> {
    let (st, acts) = columns_plan(k.columns@, t.schema, t.name@, t.columns@);
    st + if acts.len() > 0 {
        seq![StatementView::Alter(opt_view(t.schema), t.name@, acts)]
    } else {
        Seq::empty()
    }
}

/// The CREATE TABLE of each wanted table that does not exist yet, in order.
pub open spec fn creates_plan(cur: Seq<Table>, des: Seq<Table>) -> Seq<StatementView>
    decreases des.len(),
{
    if des.len() == 0 {
        Seq::empty()
    } else {
        let prev = creates_plan(cur, des.drop_last());
        let t = des.last();
        if has_table(cur, t.name@) {
            prev
        } else {
            prev.push(StatementView::Create(opt_view(t.schema), t.name@, t.columns@))
        }
    }
}

/// The changes to each wanted table that exists already, in order.
pub open spec fn alters_plan(cur: Seq<Table>, des: Seq<Table>) -> Seq<StatementView>
    decreases des.len(),
{
    if des.len() == 0 {
        Seq::empty()
    } else {
        let prev = alters_plan(cur, des.drop_last());
        let t = des.last();
        if has_table(cur, t.name@) {
            prev + table_plan(find_table(cur, t.name@), t)
        } else {
            prev
        }
    }
}

/// The DROP TABLE of each existing table no longer wanted, when drops are allowed.
pub open spec fn drops_plan(cur: Seq<Table>, des: Seq<Table>, allow: bool) -> Seq<StatementView>
    decreases cur.len(),
{
    if cur.len() == 0 {
        Seq::empty()
    } else {
        let prev = drops_plan(cur.drop_last(), des, allow);
        let k = cur.last();
        if allow && !has_table(des, k.name@) {
            prev.push(StatementView::Drop(opt_view(k.schema), k.name@))
        } else {
            prev
        }
    }
}

pub open spec fn identical_notes(cur: Seq<Table>, des: Seq<Table>) -> Seq<Seq<char>>
    decreases des.len(),
{
    if des.len() == 0 {
        Seq::empty()
    } else {
        let prev = identical_notes(cur, des.drop_last());
        let t = des.last();
        if has_table(cur, t.name@) && table_plan(find_table(cur, t.name@), t).len() == 0 {
            prev.push(t.name@)
        } else {
            prev
        }
    }
}

pub open spec fn skipped_notes(cur: Seq<Table>, des: Seq<Table>, allow: bool) -> Seq<Seq<char>>
    decreases cur.len(),
{
    if cur.len() == 0 {
        Seq::empty()
    } else {
        let prev = skipped_notes(cur.drop_last(), des, allow);
        let k = cur.last();
        if !allow && !has_table(des, k.name@) {
            prev.push(k.name@)
        } else {
            prev
        }
    }
}

/// The notes of a migration: a "tables identical" note per existing wanted table
/// that needs no statement, then a "drop skipped" note per table left in place.
pub open spec fn notes_view(v: Seq<DebugResults>) -> Seq<(bool, Seq<char>)> {
    Seq::new(
        v.len(),
        |i: int|
            match v[i] {
                DebugResults::TablesIdentical(n) => (true, n@),
                DebugResults::SkippedDropTable(n) => (false, n@),
            },
    )
}

pub open spec fn creates_view(v: Seq<CreateTable>) -> Seq<StatementView> {
    Seq::new(v.len(), |i: int| statement_view(Statement::CreateTable(v[i])))
}

pub open spec fn notes_plan(cur: Seq<Table>, des: Seq<Table>, allow: bool) -> Seq<(bool, Seq<char>)> {
    Seq::new(identical_notes(cur, des).len(), |i: int| (true, identical_notes(cur, des)[i])) + Seq::new(
        skipped_notes(cur, des, allow).len(),
        |i: int| (false, skipped_notes(cur, des, allow)[i]),
    )
}

} // verus!
