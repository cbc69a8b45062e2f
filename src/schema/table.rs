use vstd::prelude::*;
use vstd::string::*;
use crate::schema::column::Column;
use crate::util::str_to_string;

verus! {

/// A named index over columns of a table.
#[derive(Clone, Debug, PartialEq, Eq)]
pub struct Index {
    pub name: String,
    pub columns: Vec<String>,
}

/// A table: an optional schema, a name, its columns in order, and its indexes.
#[derive(Clone, Debug, PartialEq, Eq)]
pub struct Table {
    pub schema: Option<String>,
    pub name: String,
    pub columns: Vec<Column>,
    pub indexes: Vec<Index>,
}

impl Table {
    /// The first primary-key column, if any.
    pub fn primary_key(&self) -> (r: Option<&Column>)
        ensures
            r is None <==> forall|i: int| 0 <= i < self.columns@.len() ==> !(#[trigger] self.columns@[i]).primary_key,
            r matches Some(c) ==> exists|i: int|
                0 <= i < self.columns@.len() && *c == self.columns@[i] && c.primary_key && forall|j: int|
                    0 <= j < i ==> !(#[trigger] self.columns@[j]).primary_key,
    {
        let mut i: usize = 0;
        while i < self.columns.len()
            invariant
                i <= self.columns.len(),
                forall|j: int| 0 <= j < i ==> !(#[trigger] self.columns@[j]).primary_key,
            decreases self.columns.len() - i,
        {
            if self.columns[i].primary_key {
                return Some(&self.columns[i]);
            }
            i += 1;
        }
        None
    }

    pub fn new(name: &str) -> (r: Table)
        ensures
            r.schema is None,
            r.name@ == name@,
            r.columns@.len() == 0,
            r.indexes@.len() == 0,
    {
        Table { schema: None, name: str_to_string(name), columns: Vec::new(), indexes: Vec::new() }
    }

    pub fn column(self, column: Column) -> (r: Self)
        ensures
            r.columns@ == self.columns@.push(column),
            r == (Table { columns: r.columns, ..self }),
    {
        let mut t = self;
        t.columns.push(column);
        t
    }

    pub fn index(self, index: Index) -> (r: Self)
        ensures
            r.indexes@ == self.indexes@.push(index),
            r == (Table { indexes: r.indexes, ..self }),
    {
        let mut t = self;
        t.indexes.push(index);
        t
    }

    pub fn schema(self, schema: &str) -> (r: Self)
        ensures
            r.schema matches Some(s) && s@ == schema@,
            r == (Table { schema: r.schema, ..self }),
    {
        let mut t = self;
        t.schema = Some(str_to_string(schema));
        t
    }
}

} // verus!
