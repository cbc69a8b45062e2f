//! Computes the schema-change statements that turn one relational schema into
//! another, and renders those statements, and general queries, as SQL text for
//! Postgres, MySQL or SQLite.
//!
//! `schema` models tables, columns and types; `migrate` diffs two schemas into an
//! ordered list of statements; `query` holds the statement and expression nodes and
//! their rendering; `guarantees` states and proves what a migration always does.

pub mod guarantees;
pub mod migrate;
pub mod query;
pub mod schema;
pub mod to_sql;
pub mod util;

pub use migrate::{migrate, DebugResults, Migration, MigrationOptions, Statement};
pub use query::{
    AlterAction, AlterColumnAction, AlterTable, Case, Conflict, CreateIndex, CreateSchema, CreateTable,
    Criteria, Cte, CteQuery, Direction, DropTable, Expr, From, GroupBy, IndexType, Insert, Join,
    JoinTable, JoinType, NullsOrder, OnConflict, Operation, OrderBy, Select, SelectColumn,
    SelectExpression, Union, Update, Value, Values, Where,
};
pub use schema::{Column, Constraint, ForeignKey, Index, Schema, Table, Type, TypeError};
pub use to_sql::{render, Dialect, SqlError, ToSql};
