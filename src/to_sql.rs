use vstd::prelude::*;

verus! {

/// The SQL engine whose syntax a statement is rendered for.
#[derive(Copy, Clone, Debug, PartialEq, Eq, Structural)]
pub enum Dialect {
    Postgres,
    Mysql,
    Sqlite,
}

/// Why a node could not be rendered.
#[derive(Copy, Clone, Debug, PartialEq, Eq, Structural)]
pub enum SqlError {
    /// An identifier that has to be double-quoted itself holds a double quote.
    QuoteInIdentifier,
    /// SQLite has no `ON CONFLICT ... DO UPDATE`.
    SqliteDoUpdate,
    /// Postgres has no `INSERT OR REPLACE`.
    PostgresReplace,
}

/// A node that renders itself as SQL text for a dialect.
pub trait ToSql {
    /// The node's SQL text.
    spec fn sql(&self, dialect: Dialect) -> Seq<char>;

    /// Every identifier the node quotes can be quoted, and every feature it uses has
    /// a form in the dialect.
    spec fn renders(&self, dialect: Dialect) -> bool;

    /// Appends the node's SQL text, or fails and says why.
    fn write_sql(&self, buf: &mut String, dialect: Dialect) -> (r: Result<(), SqlError>)
        ensures
            r is Ok <==> self.renders(dialect),
            r is Ok ==> final(buf)@ == old(buf)@ + self.sql(dialect),
    ;
}

/// The SQL text of any node.
pub fn render<T: ToSql>(node: &T, dialect: Dialect) -> (r: Result<String, SqlError>)
    ensures
        r is Ok <==> node.renders(dialect),
        r matches Ok(s) ==> s@ == node.sql(dialect),
{
    let mut buf = String::new();
    match node.write_sql(&mut buf, dialect) {
        Ok(()) => Ok(buf),
        Err(e) => Err(e),
    }
}

} // verus!
