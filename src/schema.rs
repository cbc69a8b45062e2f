use vstd::prelude::*;
use crate::util::str_to_string;

pub mod column;
pub mod column_type;
pub mod constraint;
pub mod from_openapi;
pub mod from_postgres;
pub mod table;

pub use column::Column;
pub use column_type::{Type, TypeError};
pub use constraint::{Constraint, ForeignKey};
pub use table::{Index, Table};

verus! {

/// A database schema: a collection of tables.
#[derive(Debug, PartialEq, Eq)]
pub struct Schema {
    pub tables: Vec<Table>,
}

impl Default for Schema {
    fn default() -> (r: Schema)
        ensures
            r.tables@.len() == 0,
    {
        Schema { tables: Vec::new() }
    }
}

impl Schema {
    pub fn new() -> (r: Schema)
        ensures
            r.tables@.len() == 0,
    {
        Schema { tables: Vec::new() }
    }

    /// Puts every table in the schema named `schema`.
    pub fn name_schema(&mut self, schema: &str)
        ensures
            final(self).tables@.len() == old(self).tables@.len(),
            forall|i: int|
                0 <= i < old(self).tables@.len() ==> {
                    let t = #[trigger] final(self).tables@[i];
                    let u = old(self).tables@[i];
                    &&& t.schema matches Some(s) && s@ == schema@
                    &&& t.name == u.name
                    &&& t.columns == u.columns
                    &&& t.indexes == u.indexes
                },
    {
        let mut i: usize = 0;
        while i < self.tables.len()
            invariant
                i <= self.tables.len(),
                self.tables@.len() == old(self).tables@.len(),
                forall|j: int|
                    0 <= j < old(self).tables@.len() ==> {
                        let t = #[trigger] self.tables@[j];
                        let u = old(self).tables@[j];
                        &&& j < i ==> (t.schema matches Some(s) && s@ == schema@)
                        &&& j >= i ==> t.schema == u.schema
                        &&& t.name == u.name
                        &&& t.columns == u.columns
                        &&& t.indexes == u.indexes
                    },
            decreases self.tables.len() - i,
        {
            self.tables[i].schema = Some(str_to_string(schema));
            i += 1;
        }
    }
}

} // verus!
