use vstd::prelude::*;
use vstd::string::*;
use crate::to_sql::{Dialect, SqlError};
use crate::util::{chr, clone_opt_string, contains_char, push_quoted, quotable, quoted, str_to_string};

verus! {

/// A comparison operator between two expressions.
#[derive(Copy, Clone, Debug, PartialEq, Eq, Structural)]
pub enum Operation {
    Eq,
    Gte,
    Lte,
    Gt,
    Lt,
}

/// `CASE WHEN .. THEN .. [ELSE ..] END`.
#[derive(Debug, PartialEq, Eq)]
pub struct Case {
    pub cases: Vec<(Expr, Expr)>,
    pub els: Option<Box<Expr>>,
}

/// A scalar expression.
#[derive(Debug, PartialEq, Eq)]
pub enum Expr {
    Case(Case),
    And(Vec<Expr>),
    Raw(String),
    NotDistinctFrom(Box<Expr>, Box<Expr>),
    Column { schema: Option<String>, table: Option<String>, column: String },
    BinOp(Operation, Box<Expr>, Box<Expr>),
}

pub open spec fn op_sql(op: Operation) -> Seq<char> {
    match op {
        Operation::Eq => " = "@,
        Operation::Gte => " >= "@,
        Operation::Lte => " <= "@,
        Operation::Gt => " > "@,
        Operation::Lt => " < "@,
    }
}

/// A column reference, each part quoted: `"schema"."table"."column"`.
pub open spec fn column_ref(schema: Option<String>, table: Option<String>, column: Seq<char>) -> Seq<
    char,
> {
    (match schema {
        Some(s) => quoted(s@) + chr('.'),
        None => Seq::empty(),
    }) + (match table {
        Some(t) => quoted(t@) + chr('.'),
        None => Seq::empty(),
    }) + quoted(column)
}

pub open spec fn column_ref_ok(schema: Option<String>, table: Option<String>, column: Seq<char>) -> bool {
    quotable(column) && (match schema {
        Some(s) => quotable(s@),
        None => true,
    }) && (match table {
        Some(t) => quotable(t@),
        None => true,
    })
}

/// The SQL text of an expression.
pub open spec fn expr_sql(e: Expr) -> Seq<char>
    decreases e,
{
    match e {
        Expr::Case(c) => case_sql(c),
        Expr::And(v) => chr('(') + exprs_sql(v@, " AND "@) + chr(')'),
        Expr::Raw(s) => s@,
        Expr::NotDistinctFrom(l, r) => expr_sql(*l) + " IS NOT DISTINCT FROM "@ + expr_sql(*r),
        Expr::Column { schema, table, column } => column_ref(schema, table, column@),
        Expr::BinOp(op, l, r) => expr_sql(*l) + op_sql(op) + expr_sql(*r),
    }
}

/// Expressions joined by a separator.
pub open spec fn exprs_sql(v: Seq<Expr>, sep: Seq<char>) -> Seq<char>
    decreases v,
{
    if v.len() == 0 {
        Seq::empty()
    } else if v.len() == 1 {
        expr_sql(v[0])
    } else {
        exprs_sql(v.subrange(0, v.len() - 1), sep) + sep + expr_sql(v[v.len() - 1])
    }
}

pub open spec fn whens_sql(v: Seq<(Expr, Expr)>) -> Seq<char>
    decreases v,
{
    if v.len() == 0 {
        Seq::empty()
    } else {
        whens_sql(v.subrange(0, v.len() - 1)) + (if v.len() > 1 {
            " "@
        } else {
            Seq::empty()
        }) + "WHEN "@ + expr_sql(v[v.len() - 1].0) + " THEN "@ + expr_sql(v[v.len() - 1].1)
    }
}

pub open spec fn case_sql(c: Case) -> Seq<char>
    decreases c,
{
    "CASE "@ + whens_sql(c.cases@) + (match c.els {
        Some(e) => " ELSE "@ + expr_sql(*e),
        None => Seq::empty(),
    }) + " END"@
}

/// Every identifier that the expression quotes can be quoted.
pub open spec fn expr_ok(e: Expr) -> bool
    decreases e,
{
    match e {
        Expr::Case(c) => case_ok(c),
        Expr::And(v) => exprs_ok(v@),
        Expr::Raw(s) => true,
        Expr::NotDistinctFrom(l, r) => expr_ok(*l) && expr_ok(*r),
        Expr::Column { schema, table, column } => column_ref_ok(schema, table, column@),
        Expr::BinOp(op, l, r) => expr_ok(*l) && expr_ok(*r),
    }
}

pub open spec fn exprs_ok(v: Seq<Expr>) -> bool
    decreases v,
{
    if v.len() == 0 {
        true
    } else {
        exprs_ok(v.subrange(0, v.len() - 1)) && expr_ok(v[v.len() - 1])
    }
}

pub open spec fn whens_ok(v: Seq<(Expr, Expr)>) -> bool
    decreases v,
{
    if v.len() == 0 {
        true
    } else {
        whens_ok(v.subrange(0, v.len() - 1)) && expr_ok(v[v.len() - 1].0) && expr_ok(
            v[v.len() - 1].1,
        )
    }
}

pub open spec fn case_ok(c: Case) -> bool
    decreases c,
{
    whens_ok(c.cases@) && match c.els {
        Some(e) => expr_ok(*e),
        None => true,
    }
}

/// `a` and `b` are the same expression: the same shape, operators and leaves. A
/// copy holds other vectors, with the same contents.
pub open spec fn same_expr(a: Expr, b: Expr) -> bool
    decreases a,
{
    match a {
        Expr::Case(x) => b is Case && same_case(x, b->Case_0),
        Expr::And(v) => b is And && same_exprs(v@, b->And_0@),
        Expr::NotDistinctFrom(l, r) => b is NotDistinctFrom && same_expr(*l, *b->NotDistinctFrom_0)
            && same_expr(*r, *b->NotDistinctFrom_1),
        Expr::BinOp(op, l, r) => b is BinOp && b->BinOp_0 == op && same_expr(*l, *b->BinOp_1)
            && same_expr(*r, *b->BinOp_2),
        _ => a == b,
    }
}

pub open spec fn same_exprs(v: Seq<Expr>, w: Seq<Expr>) -> bool
    decreases v,
{
    if v.len() == 0 {
        w.len() == 0
    } else {
        w.len() == v.len() && same_exprs(v.subrange(0, v.len() - 1), w.subrange(0, w.len() - 1))
            && same_expr(v[v.len() - 1], w[w.len() - 1])
    }
}

pub open spec fn same_whens(v: Seq<(Expr, Expr)>, w: Seq<(Expr, Expr)>) -> bool
    decreases v,
{
    if v.len() == 0 {
        w.len() == 0
    } else {
        w.len() == v.len() && same_whens(v.subrange(0, v.len() - 1), w.subrange(0, w.len() - 1))
            && same_expr(v[v.len() - 1].0, w[w.len() - 1].0) && same_expr(
            v[v.len() - 1].1,
            w[w.len() - 1].1,
        )
    }
}

pub open spec fn same_case(x: Case, y: Case) -> bool
    decreases x,
{
    same_whens(x.cases@, y.cases@) && match x.els {
        Some(e) => y.els is Some && same_expr(*e, *y.els->0),
        None => y.els is None,
    }
}

impl Clone for Case {
    fn clone(&self) -> (r: Self)
        ensures
            same_case(*self, r),
        decreases self,
    {
        let mut cases: Vec<(Expr, Expr)> = Vec::new();
        let mut i: usize = 0;
        while i < self.cases.len()
            invariant
                i <= self.cases.len(),
                cases@.len() == i,
                forall|j: int|
                    0 <= j < i ==> same_expr(self.cases@[j].0, (#[trigger] cases@[j]).0) && same_expr(
                        self.cases@[j].1,
                        cases@[j].1,
                    ),
            decreases self.cases.len() - i,
        {
            let c = self.cases[i].0.clone();
            let v = self.cases[i].1.clone();
            cases.push((c, v));
            i += 1;
        }
        proof { lemma_whens_same(self.cases@, cases@); }
        let els = match &self.els {
            Some(e) => Some(Box::new((**e).clone())),
            None => None,
        };
        Case { cases, els }
    }
}

proof fn lemma_whens_same(a: Seq<(Expr, Expr)>, b: Seq<(Expr, Expr)>)
    requires
        a.len() == b.len(),
        forall|j: int|
            0 <= j < a.len() ==> same_expr(a[j].0, (#[trigger] b[j]).0) && same_expr(a[j].1, b[j].1),
    ensures
        same_whens(a, b),
    decreases a.len(),
{
    if a.len() > 0 {
        let a2 = a.subrange(0, a.len() - 1);
        let b2 = b.subrange(0, b.len() - 1);
        assert forall|j: int| 0 <= j < a2.len() implies same_expr(a2[j].0, (#[trigger] b2[j]).0) && same_expr(a2[j].1, b2[j].1) by {
            assert(a2[j] == a[j] && b2[j] == b[j]);
        }
        lemma_whens_same(a2, b2);
        assert(same_expr(a[a.len() - 1].0, b[b.len() - 1].0));
    }
}

proof fn lemma_exprs_same(a: Seq<Expr>, b: Seq<Expr>)
    requires
        a.len() == b.len(),
        forall|j: int| 0 <= j < a.len() ==> same_expr(a[j], #[trigger] b[j]),
    ensures
        same_exprs(a, b),
    decreases a.len(),
{
    if a.len() > 0 {
        let a2 = a.subrange(0, a.len() - 1);
        let b2 = b.subrange(0, b.len() - 1);
        assert forall|j: int| 0 <= j < a2.len() implies same_expr(a2[j], #[trigger] b2[j]) by {
            assert(a2[j] == a[j] && b2[j] == b[j]);
        }
        lemma_exprs_same(a2, b2);
        assert(same_expr(a[a.len() - 1], b[b.len() - 1]));
    }
}

fn clone_exprs(v: &Vec<Expr>) -> (out: Vec<Expr>)
    ensures
        same_exprs(v@, out@),
    decreases v,
{
    let mut out: Vec<Expr> = Vec::new();
    let mut i: usize = 0;
    while i < v.len()
        invariant
            i <= v.len(),
            out@.len() == i,
            forall|j: int| 0 <= j < i ==> same_expr(v@[j], #[trigger] out@[j]),
        decreases v.len() - i,
    {
        let e = v[i].clone();
        out.push(e);
        i += 1;
    }
    proof { lemma_exprs_same(v@, out@); }
    out
}

impl Clone for Expr {
    /// A copy of the expression.
    fn clone(&self) -> (r: Self)
        ensures
            same_expr(*self, r),
        decreases self,
    {
        match self {
            Expr::Case(c) => Expr::Case(c.clone()),
            Expr::And(v) => Expr::And(clone_exprs(v)),
            Expr::Raw(s) => Expr::Raw(s.clone()),
            Expr::NotDistinctFrom(l, r) => {
                let a = (**l).clone();
                let b = (**r).clone();
                Expr::NotDistinctFrom(Box::new(a), Box::new(b))
            },
            Expr::Column { schema, table, column } => Expr::Column {
                schema: clone_opt_string(schema),
                table: clone_opt_string(table),
                column: column.clone(),
            },
            Expr::BinOp(op, l, r) => {
                let a = (**l).clone();
                let b = (**r).clone();
                Expr::BinOp(*op, Box::new(a), Box::new(b))
            },
        }
    }
}

impl Operation {
    pub fn write_sql(&self, buf: &mut String, dialect: Dialect)
        ensures
            final(buf)@ == old(buf)@ + op_sql(*self),
    {
        proof {
            reveal_strlit(" = ");
            reveal_strlit(" >= ");
            reveal_strlit(" <= ");
            reveal_strlit(" > ");
            reveal_strlit(" < ");
        }
        match self {
            Operation::Eq => buf.append(" = "),
            Operation::Gte => buf.append(" >= "),
            Operation::Lte => buf.append(" <= "),
            Operation::Gt => buf.append(" > "),
            Operation::Lt => buf.append(" < "),
        }
    }
}

/// Appends a column reference, failing on a part that cannot be quoted.
pub(crate) fn push_column_ref(
    buf: &mut String,
    schema: &Option<String>,
    table: &Option<String>,
    column: &String,
) -> (r: Result<(), SqlError>)
    ensures
        r is Ok <==> column_ref_ok(*schema, *table, column@),
        r is Ok ==> final(buf)@ == old(buf)@ + column_ref(*schema, *table, column@),
        r matches Err(e) ==> e == SqlError::QuoteInIdentifier,
{
    proof { reveal_strlit("."); }
    if contains_char(column.as_str(), '"') {
        return Err(SqlError::QuoteInIdentifier);
    }
    if let Some(t) = table {
        if contains_char(t.as_str(), '"') {
            return Err(SqlError::QuoteInIdentifier);
        }
    }
    if let Some(s) = schema {
        push_quoted(buf, s.as_str())?;
        buf.append(".");
    }
    if let Some(t) = table {
        push_quoted(buf, t.as_str())?;
        buf.append(".");
    }
    push_quoted(buf, column.as_str())?;
    assert(final(buf)@ =~= old(buf)@ + column_ref(*schema, *table, column@));
    Ok(())
}

/// Appends expressions joined by `sep`.
pub fn write_expr_sequence(v: &Vec<Expr>, sep: &str, buf: &mut String, dialect: Dialect) -> (r:
    Result<(), SqlError>)
    ensures
        r is Ok <==> exprs_ok(v@),
        r is Ok ==> final(buf)@ == old(buf)@ + exprs_sql(v@, sep@),
        r matches Err(e) ==> e == SqlError::QuoteInIdentifier,
    decreases v,
{
    let mut i: usize = 0;
    while i < v.len()
        invariant
            i <= v.len(),
            exprs_ok(v@.take(i as int)),
            buf@ == old(buf)@ + exprs_sql(v@.take(i as int), sep@),
        decreases v.len() - i,
    {
        proof {
            assert(v@.take(i as int + 1).subrange(0, i as int) =~= v@.take(i as int));
            assert(v@.take(i as int + 1)[i as int] == v@[i as int]);
        }
        if i > 0 {
            buf.append(sep);
        }
        let res = v[i].write_sql(buf, dialect);
        if res.is_err() {
            proof { if exprs_ok(v@) { lemma_exprs_ok_prefix(v@, i as int + 1); } }
            return res;
        }
        proof {
            assert(buf@ =~= old(buf)@ + exprs_sql(v@.take(i as int + 1), sep@));
        }
        i += 1;
    }
    proof { assert(v@.take(i as int) =~= v@); }
    Ok(())
}

/// A failing prefix makes the whole sequence fail.
pub proof fn lemma_exprs_ok_prefix(v: Seq<Expr>, n: int)
    requires
        0 <= n <= v.len(),
        exprs_ok(v) ,
    ensures
        exprs_ok(v.take(n)),
    decreases v.len() - n,
{
    if n < v.len() {
        lemma_exprs_ok_prefix(v, n + 1);
        assert(v.take(n + 1).subrange(0, n) =~= v.take(n));
    } else {
        assert(v.take(n) =~= v);
    }
}

impl Case {
    pub fn new_when(condition: Expr, then_value: Expr) -> (r: Self)
        ensures
            r.cases@ == seq![(condition, then_value)],
            r.els is None,
    {
        Case { cases: vec![(condition, then_value)], els: None }
    }

    pub fn when(self, condition: Expr, value: Expr) -> (r: Self)
        ensures
            r.cases@ == self.cases@.push((condition, value)),
            r == (Case { cases: r.cases, ..self }),
    {
        let mut s = self;
        s.cases.push((condition, value));
        s
    }

    pub fn els(self, value: Expr) -> (r: Self)
        ensures
            r == (Case { els: Some(Box::new(value)), ..self }),
    {
        let mut s = self;
        s.els = Some(Box::new(value));
        s
    }

    pub fn write_sql(&self, buf: &mut String, dialect: Dialect) -> (r: Result<(), SqlError>)
        ensures
            r is Ok <==> case_ok(*self),
            r is Ok ==> final(buf)@ == old(buf)@ + case_sql(*self),
            r matches Err(e) ==> e == SqlError::QuoteInIdentifier,
        decreases self,
    {
        proof {
            reveal_strlit("CASE ");
            reveal_strlit(" ");
            reveal_strlit("WHEN ");
            reveal_strlit(" THEN ");
            reveal_strlit(" ELSE ");
            reveal_strlit(" END");
        }
        buf.append("CASE ");
        let ghost start = buf@;
        let mut i: usize = 0;
        while i < self.cases.len()
            invariant
                i <= self.cases.len(),
                whens_ok(self.cases@.take(i as int)),
                buf@ == start + whens_sql(self.cases@.take(i as int)),
            decreases self.cases.len() - i,
        {
            proof {
                assert(self.cases@.take(i as int + 1).subrange(0, i as int) =~= self.cases@.take(
                    i as int,
                ));
                assert(self.cases@.take(i as int + 1)[i as int] == self.cases@[i as int]);
            }
            if i > 0 {
                buf.append(" ");
            }
            buf.append("WHEN ");
            let mut res = self.cases[i].0.write_sql(buf, dialect);
            if res.is_ok() {
                buf.append(" THEN ");
                res = self.cases[i].1.write_sql(buf, dialect);
            }
            if res.is_err() {
                proof { if whens_ok(self.cases@) { lemma_whens_ok_prefix(self.cases@, i as int + 1); } }
                return res;
            }
            proof {
                assert(buf@ =~= start + whens_sql(self.cases@.take(i as int + 1)));
            }
            i += 1;
        }
        proof { assert(self.cases@.take(i as int) =~= self.cases@); }
        if let Some(e) = &self.els {
            buf.append(" ELSE ");
            e.write_sql(buf, dialect)?;
        }
        buf.append(" END");
        assert(final(buf)@ =~= old(buf)@ + case_sql(*self));
        Ok(())
    }
}

/// A failing prefix makes the whole list of branches fail.
pub proof fn lemma_whens_ok_prefix(v: Seq<(Expr, Expr)>, n: int)
    requires
        0 <= n <= v.len(),
        whens_ok(v),
    ensures
        whens_ok(v.take(n)),
    decreases v.len() - n,
{
    if n < v.len() {
        lemma_whens_ok_prefix(v, n + 1);
        assert(v.take(n + 1).subrange(0, n) =~= v.take(n));
    } else {
        assert(v.take(n) =~= v);
    }
}

impl Expr {
    /// `excluded."column"`: the value proposed for the column by a conflicting insert.
    pub fn excluded(column: &str) -> (r: Self)
        ensures
            r == Expr::Raw(r->Raw_0),
            r->Raw_0@ == "excluded."@ + quoted(column@),
    {
        proof { reveal_strlit("excluded.\""); reveal_strlit("\""); reveal_strlit("excluded."); }
        let s = str_to_string("excluded.\"").concat(column).concat("\"");
        assert(s@ =~= "excluded."@ + quoted(column@));
        Expr::Raw(s)
    }

    pub fn column(column: &str) -> (r: Self)
        ensures
            r matches Expr::Column { schema, table, column: c } && schema is None && table is None
                && c@ == column@,
    {
        Expr::Column { schema: None, table: None, column: str_to_string(column) }
    }

    pub fn new_eq(left: Expr, right: Expr) -> (r: Self)
        ensures
            r == Expr::BinOp(Operation::Eq, Box::new(left), Box::new(right)),
    {
        Expr::BinOp(Operation::Eq, Box::new(left), Box::new(right))
    }

    pub fn table_column(table: &str, column: &str) -> (r: Self)
        ensures
            r matches Expr::Column { schema, table: t, column: c } && schema is None && t
                == Some(t->0) && t->0@ == table@ && c@ == column@,
    {
        Expr::Column {
            schema: None,
            table: Some(str_to_string(table)),
            column: str_to_string(column),
        }
    }

    pub fn schema_column(schema: &str, table: &str, column: &str) -> (r: Self)
        ensures
            r matches Expr::Column { schema: s, table: t, column: c } && s == Some(s->0)
                && s->0@ == schema@ && t == Some(t->0) && t->0@ == table@ && c@ == column@,
    {
        Expr::Column {
            schema: Some(str_to_string(schema)),
            table: Some(str_to_string(table)),
            column: str_to_string(column),
        }
    }

    pub fn new_and(and: Vec<Expr>) -> (r: Self)
        ensures
            r == Expr::And(and),
    {
        Expr::And(and)
    }

    pub fn case(case: Case) -> (r: Self)
        ensures
            r == Expr::Case(case),
    {
        Expr::Case(case)
    }

    pub fn not_distinct_from(left: Expr, right: Expr) -> (r: Self)
        ensures
            r == Expr::NotDistinctFrom(Box::new(left), Box::new(right)),
    {
        Expr::NotDistinctFrom(Box::new(left), Box::new(right))
    }

    pub fn write_sql(&self, buf: &mut String, dialect: Dialect) -> (r: Result<(), SqlError>)
        ensures
            r is Ok <==> expr_ok(*self),
            r is Ok ==> final(buf)@ == old(buf)@ + expr_sql(*self),
            r matches Err(e) ==> e == SqlError::QuoteInIdentifier,
        decreases self,
    {
        proof {
            reveal_strlit("(");
            reveal_strlit(")");
            reveal_strlit(" AND ");
            reveal_strlit(" IS NOT DISTINCT FROM ");
        }
        match self {
            Expr::Case(c) => c.write_sql(buf, dialect),
            Expr::And(v) => {
                buf.append("(");
                write_expr_sequence(v, " AND ", buf, dialect)?;
                buf.append(")");
                assert(final(buf)@ =~= old(buf)@ + expr_sql(*self));
                Ok(())
            },
            Expr::Raw(s) => {
                buf.append(s.as_str());
                Ok(())
            },
            Expr::NotDistinctFrom(l, r) => {
                l.write_sql(buf, dialect)?;
                buf.append(" IS NOT DISTINCT FROM ");
                let res = r.write_sql(buf, dialect);
                assert(res is Ok ==> final(buf)@ =~= old(buf)@ + expr_sql(*self));
                res
            },
            Expr::Column { schema, table, column } => push_column_ref(buf, schema, table, column),
            Expr::BinOp(op, l, r) => {
                l.write_sql(buf, dialect)?;
                op.write_sql(buf, dialect);
                let res = r.write_sql(buf, dialect);
                assert(res is Ok ==> final(buf)@ =~= old(buf)@ + expr_sql(*self));
                res
            },
        }
    }

    /// The expression's SQL text.
    pub fn to_sql(&self, dialect: Dialect) -> (r: Result<String, SqlError>)
        ensures
            r is Ok <==> expr_ok(*self),
            r matches Ok(s) ==> s@ == expr_sql(*self),
            r matches Err(e) ==> e == SqlError::QuoteInIdentifier,
    {
        let mut buf = String::new();
        match self.write_sql(&mut buf, dialect) {
            Ok(()) => Ok(buf),
            Err(e) => Err(e),
        }
    }
}

impl crate::to_sql::ToSql for Expr {
    open spec fn sql(&self, dialect: Dialect) -> Seq<char> {
        expr_sql(*self)
    }

    open spec fn renders(&self, dialect: Dialect) -> bool {
        expr_ok(*self)
    }

    fn write_sql(&self, buf: &mut String, dialect: Dialect) -> (r: Result<(), SqlError>) {
        Expr::write_sql(self, buf, dialect)
    }
}

} // verus!
