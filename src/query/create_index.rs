use vstd::prelude::*;
use vstd::string::*;
use crate::to_sql::{Dialect, SqlError};
use crate::util::{all_quotable, push_quoted, push_quoted_sequence, push_table_name, quotable, quoted, quoted_list, table_ref, table_ref_ok};

verus! {

#[derive(Copy, Clone, Debug, PartialEq, Eq, Structural)]
pub enum IndexType {
    BTree,
    Hash,
    Gist,
    SpGist,
    Brin,
}

/// `CREATE [UNIQUE] "name" ON table USING kind (columns)`.
#[derive(Debug, PartialEq, Eq)]
pub struct CreateIndex {
    pub name: String,
    pub unique: bool,
    pub schema: Option<String>,
    pub table: String,
    pub columns: Vec<String>,
    pub type_: IndexType,
}

pub open spec fn index_type_sql(t: IndexType) -> Seq<char> {
    match t {
        IndexType::BTree => "BTREE"@,
        IndexType::Hash => "HASH"@,
        IndexType::Gist => "GIST"@,
        IndexType::SpGist => "SPGIST"@,
        IndexType::Brin => "BRIN"@,
    }
}

pub open spec fn create_index_sql(c: CreateIndex) -> Seq<char> {
    "CREATE "@ + (if c.unique {
        "UNIQUE "@
    } else {
        Seq::empty()
    }) + quoted(c.name@) + " ON "@ + table_ref(c.schema, c.table@) + " USING "@ + index_type_sql(
        c.type_,
    ) + " ("@ + quoted_list(c.columns@, ", "@) + ")"@
}

pub open spec fn create_index_ok(c: CreateIndex) -> bool {
    quotable(c.name@) && table_ref_ok(c.schema, c.table@) && all_quotable(c.columns@)
}

impl Default for IndexType {
    fn default() -> (r: Self)
        ensures
            r == IndexType::BTree,
    {
        IndexType::BTree
    }
}

impl CreateIndex {
    pub fn write_sql(&self, buf: &mut String, dialect: Dialect) -> (r: Result<(), SqlError>)
        ensures
            r is Ok <==> create_index_ok(*self),
            r is Ok ==> final(buf)@ == old(buf)@ + create_index_sql(*self),
            r matches Err(e) ==> e == SqlError::QuoteInIdentifier,
    {
        proof {
            reveal_strlit("CREATE "); reveal_strlit("UNIQUE "); reveal_strlit(" ON ");
            reveal_strlit(" USING "); reveal_strlit("BTREE"); reveal_strlit("HASH"); reveal_strlit("GIST");
            reveal_strlit("SPGIST"); reveal_strlit("BRIN"); reveal_strlit(" ("); reveal_strlit(", ");
            reveal_strlit(")");
        }
        buf.append("CREATE ");
        if self.unique {
            buf.append("UNIQUE ");
        }
        let res = push_quoted(buf, self.name.as_str());
        if res.is_err() {
            return res;
        }
        buf.append(" ON ");
        let res = push_table_name(buf, &self.schema, self.table.as_str());
        if res.is_err() {
            return res;
        }
        buf.append(" USING ");
        match self.type_ {
            IndexType::BTree => buf.append("BTREE"),
            IndexType::Hash => buf.append("HASH"),
            IndexType::Gist => buf.append("GIST"),
            IndexType::SpGist => buf.append("SPGIST"),
            IndexType::Brin => buf.append("BRIN"),
        }
        buf.append(" (");
        let res = push_quoted_sequence(buf, &self.columns, ", ");
        if res.is_err() {
            return res;
        }
        buf.append(")");
        assert(final(buf)@ =~= old(buf)@ + create_index_sql(*self));
        Ok(())
    }
}

impl crate::to_sql::ToSql for CreateIndex {
    open spec fn sql(&self, dialect: Dialect) -> Seq<char> {
        create_index_sql(*self)
    }

    open spec fn renders(&self, dialect: Dialect) -> bool {
        create_index_ok(*self)
    }

    fn write_sql(&self, buf: &mut String, dialect: Dialect) -> (r: Result<(), SqlError>) {
        CreateIndex::write_sql(self, buf, dialect)
    }
}

} // verus!
