pub mod alter_table;
pub mod create_index;
pub mod create_schema;
pub mod create_table;
pub mod cte;
pub mod drop_table;
pub mod expr;
pub mod insert;
pub mod join;
pub mod select;
pub mod union;
pub mod update;
pub mod where_clause;

pub use alter_table::{AlterAction, AlterColumnAction, AlterTable};
pub use create_index::{CreateIndex, IndexType};
pub use create_schema::CreateSchema;
pub use create_table::CreateTable;
pub use cte::{Cte, CteQuery};
pub use drop_table::DropTable;
pub use expr::{Case, Expr, Operation};
pub use insert::{Conflict, Insert, OnConflict, Value, Values};
pub use join::{Criteria, Join, JoinTable, JoinType};
pub use select::{Direction, From, GroupBy, NullsOrder, OrderBy, Select, SelectColumn, SelectExpression};
pub use union::Union;
pub use update::Update;
pub use where_clause::Where;
