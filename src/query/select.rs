use vstd::prelude::*;
use vstd::string::*;
use crate::query::cte::{ctes_ok, ctes_sql, write_ctes, Cte, CteQuery};
use crate::query::expr::{column_ref, column_ref_ok, push_column_ref};
use crate::query::join::{joins_ok, joins_sql, write_joins, Join};
use crate::query::where_clause::{where_empty, where_ok, where_sql, Where};
use crate::to_sql::{Dialect, SqlError};
use crate::util::{decimal, push_decimal, push_quoted, push_table_name, quotable, quoted, str_to_string, table_ref, table_ref_ok};

verus! {

/// A SELECT query.
#[derive(Debug, PartialEq, Eq)]
pub struct Select {
    pub ctes: Vec<Cte>,
    pub distinct: bool,
    pub columns: Vec<SelectColumn>,
    pub from: Option<From>,
    pub join: Vec<Join>,
    pub where_: Where,
    pub group: Vec<GroupBy>,
    pub having: Where,
    pub order: Vec<OrderBy>,
    pub limit: Option<usize>,
    pub offset: Option<usize>,
}

/// What a select column reads: a column reference or raw SQL text.
#[derive(Debug, PartialEq, Eq)]
pub enum SelectExpression {
    Column { schema: Option<String>, table: Option<String>, column: String },
    Raw(String),
}

/// A column of a SELECT, with an optional alias.
#[derive(Debug, PartialEq, Eq)]
pub struct SelectColumn {
    pub expression: SelectExpression,
    pub alias: Option<String>,
}

/// The table a SELECT reads from.
#[derive(Debug, PartialEq, Eq)]
pub struct From {
    pub schema: Option<String>,
    pub table: String,
    pub alias: Option<String>,
}

#[derive(Copy, Clone, Debug, PartialEq, Eq, Structural)]
pub enum Direction {
    Asc,
    Desc,
}

#[derive(Copy, Clone, Debug, PartialEq, Eq, Structural)]
pub enum NullsOrder {
    First,
    Last,
}

/// One key of an ORDER BY clause.
#[derive(Debug, PartialEq, Eq)]
pub struct OrderBy {
    pub column: String,
    pub direction: Option<Direction>,
    pub nulls: Option<NullsOrder>,
}

/// One expression of a GROUP BY clause, as raw SQL text.
#[derive(Debug, PartialEq, Eq)]
pub struct GroupBy(pub String);

pub open spec fn alias_sql(alias: Option<String>) -> Seq<char> {
    match alias {
        Some(a) => " AS "@ + quoted(a@),
        None => Seq::empty(),
    }
}

pub open spec fn alias_ok(alias: Option<String>) -> bool {
    match alias {
        Some(a) => quotable(a@),
        None => true,
    }
}

pub open spec fn select_column_sql(c: SelectColumn) -> Seq<char> {
    (match c.expression {
        SelectExpression::Column { schema, table, column } => column_ref(schema, table, column@),
        SelectExpression::Raw(r) => r@,
    }) + alias_sql(c.alias)
}

pub open spec fn select_column_ok(c: SelectColumn) -> bool {
    (match c.expression {
        SelectExpression::Column { schema, table, column } => column_ref_ok(schema, table, column@),
        SelectExpression::Raw(r) => true,
    }) && alias_ok(c.alias)
}

pub open spec fn select_columns_sql(v: Seq<SelectColumn>) -> Seq<char>
    decreases v.len(),
{
    if v.len() == 0 {
        Seq::empty()
    } else if v.len() == 1 {
        select_column_sql(v[0])
    } else {
        select_columns_sql(v.drop_last()) + ", "@ + select_column_sql(v.last())
    }
}

pub open spec fn from_sql(f: From) -> Seq<char> {
    table_ref(f.schema, f.table@) + alias_sql(f.alias)
}

pub open spec fn from_ok(f: From) -> bool {
    table_ref_ok(f.schema, f.table@) && alias_ok(f.alias)
}

pub open spec fn order_by_sql(o: OrderBy) -> Seq<char> {
    o.column@ + (match o.direction {
        Some(Direction::Asc) => " ASC"@,
        Some(Direction::Desc) => " DESC"@,
        None => Seq::empty(),
    }) + (match o.nulls {
        Some(NullsOrder::First) => " NULLS FIRST"@,
        Some(NullsOrder::Last) => " NULLS LAST"@,
        None => Seq::empty(),
    })
}

pub open spec fn orders_sql(v: Seq<OrderBy>) -> Seq<char>
    decreases v.len(),
{
    if v.len() == 0 {
        Seq::empty()
    } else if v.len() == 1 {
        order_by_sql(v[0])
    } else {
        orders_sql(v.drop_last()) + ", "@ + order_by_sql(v.last())
    }
}

pub open spec fn groups_sql(v: Seq<GroupBy>) -> Seq<char>
    decreases v.len(),
{
    if v.len() == 0 {
        Seq::empty()
    } else if v.len() == 1 {
        v[0].0@
    } else {
        groups_sql(v.drop_last()) + ", "@ + v.last().0@
    }
}

/// `[WITH ctes ]SELECT [DISTINCT ]columns`.
pub open spec fn select_head_sql(s: Select, d: Dialect) -> Seq<char>
    decreases s, 0int,
{
    (if s.ctes@.len() > 0 {
        "WITH "@ + ctes_sql(s.ctes@, d) + " "@
    } else {
        Seq::empty()
    }) + "SELECT "@ + (if s.distinct {
        "DISTINCT "@
    } else {
        Seq::empty()
    }) + select_columns_sql(s.columns@)
}

/// `[ FROM table ][joins][ WHERE condition]`.
pub open spec fn select_body_sql(s: Select, d: Dialect) -> Seq<char>
    decreases s, 0int,
{
    (match s.from {
        Some(f) => " FROM "@ + from_sql(f) + " "@,
        None => Seq::empty(),
    }) + joins_sql(s.join@, d) + (if !where_empty(s.where_) {
        " WHERE "@ + where_sql(s.where_)
    } else {
        Seq::empty()
    })
}

#[verifier::opaque]
pub open spec fn group_clause_sql(s: Select) -> Seq<char> {
    if s.group@.len() > 0 {
        " GROUP BY "@ + groups_sql(s.group@)
    } else {
        Seq::empty()
    }
}

#[verifier::opaque]
pub open spec fn having_clause_sql(s: Select) -> Seq<char> {
    if !where_empty(s.having) {
        " HAVING "@ + where_sql(s.having)
    } else {
        Seq::empty()
    }
}

#[verifier::opaque]
pub open spec fn order_clause_sql(s: Select) -> Seq<char> {
    if s.order@.len() > 0 {
        " ORDER BY "@ + orders_sql(s.order@)
    } else {
        Seq::empty()
    }
}

#[verifier::opaque]
pub open spec fn limit_clause_sql(s: Select) -> Seq<char> {
    (match s.limit {
        Some(l) => " LIMIT "@ + decimal(l as nat),
        None => Seq::empty(),
    }) + (match s.offset {
        Some(o) => " OFFSET "@ + decimal(o as nat),
        None => Seq::empty(),
    })
}

/// `[ GROUP BY ..][ HAVING ..][ ORDER BY ..][ LIMIT n][ OFFSET n]`.
pub open spec fn select_tail_sql(s: Select) -> Seq<char> {
    group_clause_sql(s) + having_clause_sql(s) + order_clause_sql(s) + limit_clause_sql(s)
}

/// The SQL text of a SELECT, its clauses in fixed order; empty clauses are left out.
pub open spec fn select_sql(s: Select, d: Dialect) -> Seq<char>
    decreases s, 1int,
{
    select_head_sql(s, d) + select_body_sql(s, d) + select_tail_sql(s)
}

/// Every part of the SELECT can be rendered for the dialect.
pub open spec fn select_ok(s: Select, d: Dialect) -> bool
    decreases s, 0int,
{
    &&& ctes_ok(s.ctes@, d)
    &&& forall|i: int| 0 <= i < s.columns@.len() ==> select_column_ok(#[trigger] s.columns@[i])
    &&& match s.from {
        Some(f) => from_ok(f),
        None => true,
    }
    &&& joins_ok(s.join@, d)
    &&& (!where_empty(s.where_) ==> where_ok(s.where_))
    &&& (!where_empty(s.having) ==> where_ok(s.having))
}

impl SelectColumn {
    /// The column name, when the column reads a column.
    pub fn column(&self) -> (r: Option<&str>)
        ensures
            self.expression matches SelectExpression::Column { column, .. } ==> (r matches Some(
                c,
            ) && c@ == column@),
            self.expression is Raw ==> r is None,
    {
        match &self.expression {
            SelectExpression::Column { column, .. } => Some(column.as_str()),
            _ => None,
        }
    }

    pub fn new(column: &str) -> (r: Self)
        ensures
            r.expression matches SelectExpression::Column { schema, table, column: c } && schema is None
                && table is None && c@ == column@,
            r.alias is None,
    {
        SelectColumn {
            expression: SelectExpression::Column {
                schema: None,
                table: None,
                column: str_to_string(column),
            },
            alias: None,
        }
    }

    pub fn table_column(table: &str, column: &str) -> (r: Self)
        ensures
            r.expression matches SelectExpression::Column { schema, table: t, column: c } && schema
                is None && t is Some && t->0@ == table@ && c@ == column@,
            r.alias is None,
    {
        SelectColumn {
            expression: SelectExpression::Column {
                schema: None,
                table: Some(str_to_string(table)),
                column: str_to_string(column),
            },
            alias: None,
        }
    }

    pub fn raw(expression: &str) -> (r: Self)
        ensures
            r.expression matches SelectExpression::Raw(s) && s@ == expression@,
            r.alias is None,
    {
        SelectColumn { expression: SelectExpression::Raw(str_to_string(expression)), alias: None }
    }

    pub fn alias(self, alias: &str) -> (r: Self)
        ensures
            r.expression == self.expression,
            r.alias matches Some(a) && a@ == alias@,
    {
        SelectColumn { expression: self.expression, alias: Some(str_to_string(alias)) }
    }

    #[verifier::spinoff_prover]
    pub fn write_sql(&self, buf: &mut String, dialect: Dialect) -> (r: Result<(), SqlError>)
        ensures
            r is Ok <==> select_column_ok(*self),
            r is Ok ==> final(buf)@ == old(buf)@ + select_column_sql(*self),
    {
        proof { reveal_strlit(" AS "); }
        match &self.expression {
            SelectExpression::Column { schema, table, column } => {
                let res = push_column_ref(buf, schema, table, column);
                if res.is_err() {
                    return res;
                }
            },
            SelectExpression::Raw(raw) => buf.append(raw.as_str()),
        }
        if let Some(alias) = &self.alias {
            buf.append(" AS ");
            push_quoted(buf, alias.as_str())?;
        }
        assert(final(buf)@ =~= old(buf)@ + select_column_sql(*self));
        Ok(())
    }
}

impl From {
    #[verifier::spinoff_prover]
    pub fn write_sql(&self, buf: &mut String, dialect: Dialect) -> (r: Result<(), SqlError>)
        ensures
            r is Ok <==> from_ok(*self),
            r is Ok ==> final(buf)@ == old(buf)@ + from_sql(*self),
    {
        proof { reveal_strlit(" AS "); }
        let res = push_table_name(buf, &self.schema, self.table.as_str());
        if res.is_err() {
            return res;
        }
        if let Some(alias) = &self.alias {
            buf.append(" AS ");
            push_quoted(buf, alias.as_str())?;
        }
        assert(final(buf)@ =~= old(buf)@ + from_sql(*self));
        Ok(())
    }
}

impl OrderBy {
    pub fn new(column: &str) -> (r: Self)
        ensures
            r.column@ == column@,
            r.direction is None,
            r.nulls is None,
    {
        OrderBy { column: str_to_string(column), direction: None, nulls: None }
    }

    pub fn direction(self, direction: Direction) -> (r: Self)
        ensures
            r == (OrderBy { direction: Some(direction), ..self }),
    {
        OrderBy { direction: Some(direction), ..self }
    }

    pub fn asc(self) -> (r: Self)
        ensures
            r == (OrderBy { direction: Some(Direction::Asc), ..self }),
    {
        OrderBy { direction: Some(Direction::Asc), ..self }
    }

    pub fn desc(self) -> (r: Self)
        ensures
            r == (OrderBy { direction: Some(Direction::Desc), ..self }),
    {
        OrderBy { direction: Some(Direction::Desc), ..self }
    }

    pub fn nulls(self, nulls: NullsOrder) -> (r: Self)
        ensures
            r == (OrderBy { nulls: Some(nulls), ..self }),
    {
        OrderBy { nulls: Some(nulls), ..self }
    }

    pub fn nulls_first(self) -> (r: Self)
        ensures
            r == (OrderBy { nulls: Some(NullsOrder::First), ..self }),
    {
        OrderBy { nulls: Some(NullsOrder::First), ..self }
    }

    pub fn nulls_last(self) -> (r: Self)
        ensures
            r == (OrderBy { nulls: Some(NullsOrder::Last), ..self }),
    {
        OrderBy { nulls: Some(NullsOrder::Last), ..self }
    }

    #[verifier::spinoff_prover]
    pub fn write_sql(&self, buf: &mut String, dialect: Dialect)
        ensures
            final(buf)@ == old(buf)@ + order_by_sql(*self),
    {
        proof {
            reveal_strlit(" ASC"); reveal_strlit(" DESC"); reveal_strlit(" NULLS FIRST");
            reveal_strlit(" NULLS LAST");
        }
        buf.append(self.column.as_str());
        match self.direction {
            Some(Direction::Asc) => buf.append(" ASC"),
            Some(Direction::Desc) => buf.append(" DESC"),
            None => {},
        }
        match self.nulls {
            Some(NullsOrder::First) => buf.append(" NULLS FIRST"),
            Some(NullsOrder::Last) => buf.append(" NULLS LAST"),
            None => {},
        }
        assert(final(buf)@ =~= old(buf)@ + order_by_sql(*self));
    }
}

impl Default for Select {
    /// A SELECT with nothing in it.
    fn default() -> (r: Self)
        ensures
            r.ctes@.len() == 0,
            !r.distinct,
            r.columns@.len() == 0,
            r.from is None,
            r.join@.len() == 0,
            r.where_ matches Where::And(v) && v@.len() == 0,
            r.group@.len() == 0,
            r.having matches Where::And(v) && v@.len() == 0,
            r.order@.len() == 0,
            r.limit is None,
            r.offset is None,
    {
        Select::new()
    }
}

impl Default for Direction {
    fn default() -> (r: Self)
        ensures
            r == Direction::Asc,
    {
        Direction::Asc
    }
}

impl Select {
    /// A SELECT with nothing in it.
    pub fn new() -> (r: Self)
        ensures
            r.ctes@.len() == 0,
            !r.distinct,
            r.columns@.len() == 0,
            r.from is None,
            r.join@.len() == 0,
            r.where_ matches Where::And(v) && v@.len() == 0,
            r.group@.len() == 0,
            r.having matches Where::And(v) && v@.len() == 0,
            r.order@.len() == 0,
            r.limit is None,
            r.offset is None,
    {
        Select {
            ctes: Vec::new(),
            distinct: false,
            columns: Vec::new(),
            from: None,
            join: Vec::new(),
            where_: Where::And(Vec::new()),
            group: Vec::new(),
            having: Where::And(Vec::new()),
            order: Vec::new(),
            limit: None,
            offset: None,
        }
    }

    /// Adds a common table expression given as raw SQL text.
    pub fn with_raw(self, name: &str, query: &str) -> (r: Self)
        ensures
            r.ctes@.len() == self.ctes@.len() + 1,
            r.ctes@.drop_last() == self.ctes@,
            r.ctes@.last().name@ == name@,
            r.ctes@.last().query matches CteQuery::Raw(q) && q@ == query@,
            r == (Select { ctes: r.ctes, ..self }),
    {
        let mut s = self;
        s.ctes.push(Cte { name: str_to_string(name), query: CteQuery::Raw(str_to_string(query)) });
        assert(s.ctes@.drop_last() =~= self.ctes@);
        s
    }

    /// Adds a common table expression given as a SELECT.
    pub fn with(self, name: &str, query: Select) -> (r: Self)
        ensures
            r.ctes@.len() == self.ctes@.len() + 1,
            r.ctes@.drop_last() == self.ctes@,
            r.ctes@.last().name@ == name@,
            r.ctes@.last().query == CteQuery::Select(query),
            r == (Select { ctes: r.ctes, ..self }),
    {
        let mut s = self;
        s.ctes.push(Cte { name: str_to_string(name), query: CteQuery::Select(query) });
        assert(s.ctes@.drop_last() =~= self.ctes@);
        s
    }

    pub fn distinct(self) -> (r: Self)
        ensures
            r == (Select { distinct: true, ..self }),
    {
        Select { distinct: true, ..self }
    }

    pub fn table_column(self, table: &str, column: &str) -> (r: Self)
        ensures
            r.columns@.len() == self.columns@.len() + 1,
            r.columns@.drop_last() == self.columns@,
            r.columns@.last().expression matches SelectExpression::Column { schema, table: t, column: c }
                && schema is None && t is Some && t->0@ == table@ && c@ == column@,
            r.columns@.last().alias is None,
            r == (Select { columns: r.columns, ..self }),
    {
        let mut s = self;
        s.columns.push(SelectColumn::table_column(table, column));
        assert(s.columns@.drop_last() =~= self.columns@);
        s
    }

    pub fn select_raw(self, expression: &str) -> (r: Self)
        ensures
            r.columns@.len() == self.columns@.len() + 1,
            r.columns@.drop_last() == self.columns@,
            r.columns@.last().expression matches SelectExpression::Raw(e) && e@ == expression@,
            r.columns@.last().alias is None,
            r == (Select { columns: r.columns, ..self }),
    {
        let mut s = self;
        s.columns.push(SelectColumn::raw(expression));
        assert(s.columns@.drop_last() =~= self.columns@);
        s
    }

    pub fn from(self, table: &str) -> (r: Self)
        ensures
            r.from matches Some(f) && f.schema is None && f.table@ == table@ && f.alias is None,
            r == (Select { from: r.from, ..self }),
    {
        Select { from: Some(From { schema: None, table: str_to_string(table), alias: None }), ..self }
    }

    pub fn join(self, join: Join) -> (r: Self)
        ensures
            r.join@ == self.join@.push(join),
            r == (Select { join: r.join, ..self }),
    {
        let mut s = self;
        s.join.push(join);
        s
    }

    /// Adds a condition, joined to the existing ones with AND.
    pub fn where_(self, where_: Where) -> (r: Self)
        ensures
            self.where_ matches Where::And(v) ==> (r.where_ matches Where::And(u) && u@ == v@.push(
                where_,
            )),
            !(self.where_ is And) ==> (r.where_ matches Where::And(u) && u@ == seq![
                self.where_,
                where_,
            ]),
            r == (Select { where_: r.where_, ..self }),
    {
        let Select { ctes, distinct, columns, from, join, where_: w, group, having, order, limit, offset } = self;
        Select { ctes, distinct, columns, from, join, where_: w.and(where_), group, having, order, limit, offset }
    }

    pub fn where_raw(self, where_: &str) -> (r: Self)
        ensures
            self.where_ matches Where::And(v) ==> (r.where_ matches Where::And(u) && u@.len() == v@.len() + 1
                && u@.drop_last() == v@ && u@.last() is Expr && u@.last()->Expr_0 is Raw
                && u@.last()->Expr_0->Raw_0@ == where_@),
            r == (Select { where_: r.where_, ..self }),
    {
        let ghost w0 = self.where_;
        let r = self.where_(Where::raw(where_));
        proof {
            if w0 is And {
                assert(r.where_->And_0@.drop_last() =~= w0->And_0@);
            }
        }
        r
    }

    pub fn group_by(self, group: &str) -> (r: Self)
        ensures
            r.group@.len() == self.group@.len() + 1,
            r.group@.drop_last() == self.group@,
            r.group@.last().0@ == group@,
            r == (Select { group: r.group, ..self }),
    {
        let mut s = self;
        s.group.push(GroupBy(str_to_string(group)));
        assert(s.group@.drop_last() =~= self.group@);
        s
    }

    /// Adds a HAVING condition, joined to the existing ones with AND.
    pub fn having(self, having: Where) -> (r: Self)
        ensures
            self.having matches Where::And(v) ==> (r.having matches Where::And(u) && u@ == v@.push(
                having,
            )),
            !(self.having is And) ==> (r.having matches Where::And(u) && u@ == seq![
                self.having,
                having,
            ]),
            r == (Select { having: r.having, ..self }),
    {
        let Select { ctes, distinct, columns, from, join, where_, group, having: h, order, limit, offset } = self;
        Select { ctes, distinct, columns, from, join, where_, group, having: h.and(having), order, limit, offset }
    }

    pub fn order_by(self, order: OrderBy) -> (r: Self)
        ensures
            r.order@ == self.order@.push(order),
            r == (Select { order: r.order, ..self }),
    {
        let mut s = self;
        s.order.push(order);
        s
    }

    pub fn order_asc(self, order: &str) -> (r: Self)
        ensures
            r.order@.len() == self.order@.len() + 1,
            r.order@.drop_last() == self.order@,
            r.order@.last().column@ == order@,
            r.order@.last().direction == Some(Direction::Asc),
            r.order@.last().nulls is None,
            r == (Select { order: r.order, ..self }),
    {
        let r = self.order_by(OrderBy::new(order).asc());
        assert(r.order@.drop_last() =~= self.order@);
        r
    }

    pub fn order_desc(self, order: &str) -> (r: Self)
        ensures
            r.order@.len() == self.order@.len() + 1,
            r.order@.drop_last() == self.order@,
            r.order@.last().column@ == order@,
            r.order@.last().direction == Some(Direction::Desc),
            r.order@.last().nulls is None,
            r == (Select { order: r.order, ..self }),
    {
        let r = self.order_by(OrderBy::new(order).desc());
        assert(r.order@.drop_last() =~= self.order@);
        r
    }

    pub fn limit(self, limit: usize) -> (r: Self)
        ensures
            r == (Select { limit: Some(limit), ..self }),
    {
        Select { limit: Some(limit), ..self }
    }

    pub fn offset(self, offset: usize) -> (r: Self)
        ensures
            r == (Select { offset: Some(offset), ..self }),
    {
        Select { offset: Some(offset), ..self }
    }

    #[verifier::spinoff_prover]
    fn write_head(&self, buf: &mut String, dialect: Dialect) -> (r: Result<(), SqlError>)
        ensures
            r is Ok <==> ctes_ok(self.ctes@, dialect) && forall|i: int|
                0 <= i < self.columns@.len() ==> select_column_ok(#[trigger] self.columns@[i]),
            r is Ok ==> final(buf)@ == old(buf)@ + select_head_sql(*self, dialect),
        decreases self, 0int,
    {
        proof { reveal_strlit("WITH "); reveal_strlit(" "); reveal_strlit("SELECT "); reveal_strlit("DISTINCT "); reveal_strlit(", "); }
        if self.ctes.len() > 0 {
            buf.append("WITH ");
            let res = write_ctes(&self.ctes, buf, dialect);
            if res.is_err() {
                return res;
            }
            buf.append(" ");
        } else {
            assert(ctes_ok(self.ctes@, dialect));
        }
        buf.append("SELECT ");
        if self.distinct {
            buf.append("DISTINCT ");
        }
        let ghost g1 = buf@;
        let mut i: usize = 0;
        while i < self.columns.len()
            invariant
                i <= self.columns.len(),
                ctes_ok(self.ctes@, dialect),
                forall|j: int| 0 <= j < i ==> select_column_ok(#[trigger] self.columns@[j]),
                buf@ == g1 + select_columns_sql(self.columns@.take(i as int)),
            decreases self.columns.len() - i,
        {
            proof { assert(self.columns@.take(i as int + 1).drop_last() =~= self.columns@.take(i as int)); }
            if i > 0 {
                buf.append(", ");
            }
            let res = self.columns[i].write_sql(buf, dialect);
            if res.is_err() {
                return res;
            }
            proof { assert(buf@ =~= g1 + select_columns_sql(self.columns@.take(i as int + 1))); }
            i += 1;
        }
        proof { assert(self.columns@.take(i as int) =~= self.columns@); }
        assert(final(buf)@ =~= old(buf)@ + select_head_sql(*self, dialect));
        Ok(())
    }

    #[verifier::spinoff_prover]
    fn write_body(&self, buf: &mut String, dialect: Dialect) -> (r: Result<(), SqlError>)
        ensures
            r is Ok <==> (match self.from {
                Some(f) => from_ok(f),
                None => true,
            }) && joins_ok(self.join@, dialect) && (!where_empty(self.where_) ==> where_ok(self.where_)),
            r is Ok ==> final(buf)@ == old(buf)@ + select_body_sql(*self, dialect),
        decreases self, 0int,
    {
        proof { reveal_strlit(" FROM "); reveal_strlit(" "); reveal_strlit(" WHERE "); }
        if let Some(from) = &self.from {
            buf.append(" FROM ");
            let res = from.write_sql(buf, dialect);
            if res.is_err() {
                return res;
            }
            buf.append(" ");
        }
        let res = write_joins(&self.join, buf, dialect);
        if res.is_err() {
            return res;
        }
        if !self.where_.is_empty() {
            buf.append(" WHERE ");
            let res = self.where_.write_sql(buf, dialect);
            if res.is_err() {
                return res;
            }
        }
        assert(final(buf)@ =~= old(buf)@ + select_body_sql(*self, dialect));
        Ok(())
    }

    fn write_group(&self, buf: &mut String)
        ensures
            final(buf)@ == old(buf)@ + group_clause_sql(*self),
    {
        reveal(group_clause_sql);
        proof { reveal_strlit(", "); reveal_strlit(" GROUP BY "); }
        if self.group.len() > 0 {
            buf.append(" GROUP BY ");
            let ghost g3 = buf@;
            let mut i: usize = 0;
            while i < self.group.len()
                invariant
                    i <= self.group.len(),
                    buf@ == g3 + groups_sql(self.group@.take(i as int)),
                decreases self.group.len() - i,
            {
                proof { assert(self.group@.take(i as int + 1).drop_last() =~= self.group@.take(i as int)); }
                if i > 0 {
                    buf.append(", ");
                }
                buf.append(self.group[i].0.as_str());
                proof { assert(buf@ =~= g3 + groups_sql(self.group@.take(i as int + 1))); }
                i += 1;
            }
            proof { assert(self.group@.take(i as int) =~= self.group@); }
            assert(final(buf)@ =~= old(buf)@ + (" GROUP BY "@ + groups_sql(self.group@)));
        } else {
            assert(final(buf)@ =~= old(buf)@ + Seq::<char>::empty());
        }
    }

    fn write_order(&self, buf: &mut String, dialect: Dialect)
        ensures
            final(buf)@ == old(buf)@ + order_clause_sql(*self),
    {
        reveal(order_clause_sql);
        proof { reveal_strlit(", "); reveal_strlit(" ORDER BY "); }
        if self.order.len() > 0 {
            buf.append(" ORDER BY ");
            let ghost g5 = buf@;
            let mut i: usize = 0;
            while i < self.order.len()
                invariant
                    i <= self.order.len(),
                    buf@ == g5 + orders_sql(self.order@.take(i as int)),
                decreases self.order.len() - i,
            {
                proof { assert(self.order@.take(i as int + 1).drop_last() =~= self.order@.take(i as int)); }
                if i > 0 {
                    buf.append(", ");
                }
                self.order[i].write_sql(buf, dialect);
                proof { assert(buf@ =~= g5 + orders_sql(self.order@.take(i as int + 1))); }
                i += 1;
            }
            proof { assert(self.order@.take(i as int) =~= self.order@); }
            assert(final(buf)@ =~= old(buf)@ + (" ORDER BY "@ + orders_sql(self.order@)));
        } else {
            assert(final(buf)@ =~= old(buf)@ + Seq::<char>::empty());
        }
    }

    fn write_limits(&self, buf: &mut String)
        ensures
            final(buf)@ == old(buf)@ + limit_clause_sql(*self),
    {
        reveal(limit_clause_sql);
        proof { reveal_strlit(" LIMIT "); reveal_strlit(" OFFSET "); }
        if let Some(limit) = self.limit {
            buf.append(" LIMIT ");
            push_decimal(buf, limit);
        }
        if let Some(offset) = self.offset {
            buf.append(" OFFSET ");
            push_decimal(buf, offset);
        }
        assert(final(buf)@ =~= old(buf)@ + (match self.limit {
                Some(l) => " LIMIT "@ + decimal(l as nat),
                None => Seq::empty(),
            }) + (match self.offset {
                Some(o) => " OFFSET "@ + decimal(o as nat),
                None => Seq::empty(),
            }));
    }

    fn write_tail(&self, buf: &mut String, dialect: Dialect) -> (r: Result<(), SqlError>)
        ensures
            r is Ok <==> (!where_empty(self.having) ==> where_ok(self.having)),
            r is Ok ==> final(buf)@ == old(buf)@ + select_tail_sql(*self),
    {
        proof { reveal_strlit(" HAVING "); }
        self.write_group(buf);
        let ghost g1 = buf@;
        if !self.having.is_empty() {
            buf.append(" HAVING ");
            let res = self.having.write_sql(buf, dialect);
            if res.is_err() {
                return res;
            }
        }
        let ghost g2 = buf@;
        assert(g2 =~= g1 + having_clause_sql(*self)) by {
            reveal(having_clause_sql);
        }
        self.write_order(buf, dialect);
        self.write_limits(buf);
        assert(final(buf)@ =~= old(buf)@ + select_tail_sql(*self));
        Ok(())
    }

    #[verifier::spinoff_prover]
    #[verifier::rlimit(100)]
    pub fn write_sql(&self, buf: &mut String, dialect: Dialect) -> (r: Result<(), SqlError>)
        ensures
            r is Ok <==> select_ok(*self, dialect),
            r is Ok ==> final(buf)@ == old(buf)@ + select_sql(*self, dialect),
        decreases self, 1int,
    {
        let res = self.write_head(buf, dialect);
        if res.is_err() {
            return res;
        }
        let res = self.write_body(buf, dialect);
        if res.is_err() {
            return res;
        }
        let res = self.write_tail(buf, dialect);
        if res.is_err() {
            return res;
        }
        assert(final(buf)@ =~= old(buf)@ + select_sql(*self, dialect));
        Ok(())
    }

    pub fn to_sql(&self, dialect: Dialect) -> (r: Result<String, SqlError>)
        ensures
            r is Ok <==> select_ok(*self, dialect),
            r matches Ok(s) ==> s@ == select_sql(*self, dialect),
    {
        let mut buf = String::new();
        match self.write_sql(&mut buf, dialect) {
            Ok(()) => Ok(buf),
            Err(e) => Err(e),
        }
    }
}

impl crate::to_sql::ToSql for Select {
    open spec fn sql(&self, dialect: Dialect) -> Seq<char> {
        select_sql(*self, dialect)
    }

    open spec fn renders(&self, dialect: Dialect) -> bool {
        select_ok(*self, dialect)
    }

    fn write_sql(&self, buf: &mut String, dialect: Dialect) -> (r: Result<(), SqlError>) {
        Select::write_sql(self, buf, dialect)
    }
}

} // verus!
