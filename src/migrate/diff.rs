use vstd::prelude::*;
use vstd::string::*;
use crate::migrate::{DebugResults, Migration, Statement};
use crate::query::alter_table::{fk_name, AlterAction, AlterColumnAction, AlterTable};
use crate::query::create_table::CreateTable;
use crate::query::update::Update;
use crate::query::where_clause::Where;
use crate::schema::column::Column;
use crate::schema::column_type::lossy_same;
use crate::schema::constraint::Constraint;
use crate::schema::table::Table;
use crate::migrate::plan::{
    actions_view, add_required_column_plan, alter_column_plan, alters_plan, columns_plan, creates_plan,
    creates_view, drops_plan, find_column, find_table, has_table, identical_notes, notes_plan, notes_view,
    is_backfill, opt_view, skipped_notes, statement_view, statements_view, ActionView, StatementView,
};
use crate::query::drop_table::DropTable;
use crate::util::{clone_opt_string, str_eq};

verus! {

fn find_column_exec<'a>(cs: &'a Vec<Column>, name: &String) -> (r: Option<&'a Column>)
    ensures
        r matches Some(c) ==> find_column(cs@, name@) == Some(*c),
        r is None ==> find_column(cs@, name@) is None,
{
    let mut i: usize = cs.len();
    assert(cs@.take(cs@.len() as int) =~= cs@);
    while i > 0
        invariant
            i <= cs.len(),
            find_column(cs@, name@) == find_column(cs@.take(i as int), name@),
        decreases i,
    {
        proof { assert(cs@.take(i as int).drop_last() =~= cs@.take(i as int - 1)); }
        if str_eq(cs[i - 1].name.as_str(), name.as_str()) {
            return Some(&cs[i - 1]);
        }
        i -= 1;
    }
    None
}

fn find_table_exec<'a>(ts: &'a Vec<Table>, name: &String) -> (r: Option<&'a Table>)
    ensures
        r is None <==> !has_table(ts@, name@),
        r matches Some(t) ==> *t == find_table(ts@, name@),
{
    let mut i: usize = ts.len();
    assert(ts@.take(ts@.len() as int) =~= ts@);
    while i > 0
        invariant
            i <= ts.len(),
            find_table(ts@, name@) == find_table(ts@.take(i as int), name@),
            forall|j: int| i <= j < ts@.len() ==> (#[trigger] ts@[j]).name@ != name@,
        decreases i,
    {
        proof { assert(ts@.take(i as int).drop_last() =~= ts@.take(i as int - 1)); }
        if str_eq(ts[i - 1].name.as_str(), name.as_str()) {
            return Some(&ts[i - 1]);
        }
        i -= 1;
    }
    None
}

fn has_name(names: &Vec<String>, n: &String) -> (r: bool)
    ensures
        r == exists|k: int| 0 <= k < names@.len() && (#[trigger] names@[k])@ == n@,
{
    let mut i: usize = 0;
    while i < names.len()
        invariant
            i <= names.len(),
            forall|k: int| 0 <= k < i ==> (#[trigger] names@[k])@ != n@,
        decreases names.len() - i,
    {
        if str_eq(names[i].as_str(), n.as_str()) {
            return true;
        }
        i += 1;
    }
    false
}

/// The three statements that add a column that may not be null.
fn add_required_column(schema: &Option<String>, table: &String, c: Column) -> (r: Vec<Statement>)
    ensures
        statements_view(r@) == add_required_column_plan(*schema, table@, c),
{
    proof { reveal_strlit("/* TODO set a value before setting the column to null */"); reveal_strlit("true"); }
    let cname = c.name.clone();
    let cname2 = c.name.clone();
    let ghost c0 = c;
    let added = Column { nullable: true, ..c };
    let mut a1: Vec<AlterAction> = Vec::new();
    a1.push(AlterAction::AddColumn { column: added });
    assert(actions_view(a1@) =~= seq![ActionView::AddColumn(Column { nullable: true, ..c0 })]);
    let s1 = Statement::AlterTable(
        AlterTable { schema: clone_opt_string(schema), name: table.clone(), actions: a1 },
    );
    let u = Update::new(table.as_str()).set(
        cname.as_str(),
        "/* TODO set a value before setting the column to null */",
    ).where_(Where::raw("true"));
    let u = Update { schema: clone_opt_string(schema), ..u };
    let s2 = Statement::Update(u);
    let mut a3: Vec<AlterAction> = Vec::new();
    a3.push(AlterAction::set_nullable(cname2, false));
    assert(actions_view(a3@) =~= seq![ActionView::SetNullable(c0.name@, false)]);
    let s3 = Statement::AlterTable(
        AlterTable { schema: clone_opt_string(schema), name: table.clone(), actions: a3 },
    );
    let r = vec![s1, s2, s3];
    proof {
        assert(u.where_->And_0@ =~= seq![u.where_->And_0@[0]]);
        assert(is_backfill(u));
        assert(statement_view(s2) == StatementView::Backfill(opt_view(*schema), table@, c0.name@));
        assert(statement_view(s1) == add_required_column_plan(*schema, table@, c0)[0]);
        assert(statement_view(s3) == add_required_column_plan(*schema, table@, c0)[2]);
        assert(statements_view(r@) =~= add_required_column_plan(*schema, table@, c0));
    }
    r
}

/// The changes that bring an existing column in line with the wanted one.
fn alter_column(table: &String, cur: &Column, c: Column) -> (r: Vec<AlterAction>)
    ensures
        actions_view(r@) == alter_column_plan(table@, *cur, c),
{
    let ghost c0 = c;
    let mut r: Vec<AlterAction> = Vec::new();
    if cur.nullable != c.nullable {
        r.push(AlterAction::set_nullable(c.name.clone(), c.nullable));
    }
    if !cur.typ.lossy_eq(&c.typ) {
        r.push(AlterAction::set_type(c.name.clone(), c.typ.clone()));
    }
    let Column { name, constraint, .. } = c;
    if cur.constraint.is_none() {
        if let Some(k) = constraint {
            r.push(AlterAction::add_constraint(table.as_str(), name, k));
        }
    }
    assert(actions_view(r@) =~= alter_column_plan(table@, *cur, c0));
    r
}

/// The statements emitted on their own, and the actions to merge, for the wanted
/// columns of a table whose current columns are `cur`.
fn diff_columns(cur: &Vec<Column>, schema: &Option<String>, table: &String, columns: Vec<Column>) -> (r: (Vec<Statement>, Vec<AlterAction>))
    ensures
        (statements_view(r.0@), actions_view(r.1@)) == columns_plan(cur@, *schema, table@, columns@),
{
    let ghost orig = columns@;
    let mut rest = columns;
    let mut stmts: Vec<Statement> = Vec::new();
    let mut actions: Vec<AlterAction> = Vec::new();
    let mut i: usize = 0;
    let n = rest.len();
    assert(orig.take(0) =~= Seq::<Column>::empty());
    while i < n
        invariant
            n == orig.len(),
            i <= n,
            rest@ == orig.subrange(i as int, n as int),
            (statements_view(stmts@), actions_view(actions@)) == columns_plan(cur@, *schema, table@, orig.take(i as int)),
        decreases n - i,
    {
        let c = rest.remove(0);
        proof {
            assert(c == orig[i as int]);
            assert(rest@ =~= orig.subrange(i as int + 1, n as int));
            assert(orig.take(i as int + 1).drop_last() =~= orig.take(i as int));
            assert(orig.take(i as int + 1).last() == c);
        }
        let ghost st0 = stmts@;
        let ghost ac0 = actions@;
        match find_column_exec(cur, &c.name) {
            Some(k) => {
                let more = alter_column(table, k, c);
                let mut more = more;
                actions.append(&mut more);
                proof { assert(actions_view(actions@) =~= actions_view(ac0) + alter_column_plan(table@, *k, orig[i as int])); }
            },
            None => {
                if c.nullable {
                    actions.push(AlterAction::AddColumn { column: c });
                    proof { assert(actions_view(actions@) =~= actions_view(ac0).push(ActionView::AddColumn(orig[i as int]))); }
                } else {
                    let mut three = add_required_column(schema, table, c);
                    let ghost tv = three@;
                    stmts.append(&mut three);
                    proof { assert(statements_view(stmts@) =~= statements_view(st0) + statements_view(tv)); }
                }
            },
        }
        i += 1;
    }
    proof { assert(orig.take(n as int) =~= orig); }
    (stmts, actions)
}

/// The statements of a migration before CREATE TABLEs are ordered: the creates,
/// then the other statements, and the notes.
pub(crate) fn diff_tables(current: &Vec<Table>, desired: Vec<Table>, allow_destructive: bool) -> (r: (
    Vec<CreateTable>,
    Vec<Statement>,
    Vec<DebugResults>,
))
    ensures
        creates_view(r.0@) == creates_plan(current@, desired@),
        statements_view(r.1@) == alters_plan(current@, desired@) + drops_plan(
            current@,
            desired@,
            allow_destructive,
        ),
        notes_view(r.2@) == notes_plan(current@, desired@, allow_destructive),
{
    let ghost orig = desired@;
    let mut names: Vec<String> = Vec::new();
    let mut i: usize = 0;
    while i < desired.len()
        invariant
            i <= desired.len(),
            desired@ == orig,
            names@.len() == i,
            forall|k: int| 0 <= k < i ==> (#[trigger] names@[k])@ == orig[k].name@,
        decreases desired.len() - i,
    {
        names.push(desired[i].name.clone());
        i += 1;
    }
    let n = desired.len();
    let mut rest = desired;
    let mut creates: Vec<CreateTable> = Vec::new();
    let mut alters: Vec<Statement> = Vec::new();
    let mut identical: Vec<String> = Vec::new();
    let mut i: usize = 0;
    assert(orig.take(0) =~= Seq::<Table>::empty());
    while i < n
        invariant
            n == orig.len(),
            i <= n,
            rest@ == orig.subrange(i as int, n as int),
            creates_view(creates@) == creates_plan(current@, orig.take(i as int)),
            statements_view(alters@) == alters_plan(current@, orig.take(i as int)),
            Seq::new(identical@.len(), |k: int| identical@[k]@) == identical_notes(current@, orig.take(i as int)),
        decreases n - i,
    {
        let t = rest.remove(0);
        proof {
            assert(t == orig[i as int]);
            assert(rest@ =~= orig.subrange(i as int + 1, n as int));
            assert(orig.take(i as int + 1).drop_last() =~= orig.take(i as int));
            assert(orig.take(i as int + 1).last() == t);
        }
        let ghost c0 = creates@;
        let ghost a0 = alters@;
        let ghost id0 = identical@;
        match find_table_exec(current, &t.name) {
            None => {
                let Table { schema, name, columns, .. } = t;
                creates.push(CreateTable { schema, name, columns });
                proof { assert(creates_view(creates@) =~= creates_view(c0).push(StatementView::Create(opt_view(t.schema), t.name@, t.columns@))); }
                assert(Seq::new(identical@.len(), |k: int| identical@[k]@) =~= identical_notes(current@, orig.take(i as int + 1)));
            },
            Some(k) => {
                let Table { schema, name, columns, .. } = t;
                let (st, acts) = diff_columns(&k.columns, &schema, &name, columns);
                let ghost stv = st@;
                let ghost actv = acts@;
                let nst = st.len();
                let mut st = st;
                alters.append(&mut st);
                if acts.len() > 0 {
                    alters.push(Statement::AlterTable(AlterTable { schema, name, actions: acts }));
                    proof {
                        assert(statements_view(alters@) =~= statements_view(a0) + (statements_view(stv) + seq![StatementView::Alter(opt_view(t.schema), t.name@, actions_view(actv))]));
                    }
                    assert(Seq::new(identical@.len(), |k: int| identical@[k]@) =~= identical_notes(current@, orig.take(i as int + 1)));
                } else {
                    proof {
                        assert(statements_view(alters@) =~= statements_view(a0) + statements_view(stv));
                        assert(statements_view(stv) + Seq::<StatementView>::empty() =~= statements_view(stv));
                    }
                    if nst == 0 {
                        identical.push(name);
                        assert(Seq::new(identical@.len(), |k: int| identical@[k]@) =~= Seq::new(id0.len(), |k: int| id0[k]@).push(t.name@));
                    } else {
                        assert(Seq::new(identical@.len(), |k: int| identical@[k]@) =~= identical_notes(current@, orig.take(i as int + 1)));
                    }
                }
            },
        }
        i += 1;
    }
    proof { assert(orig.take(n as int) =~= orig); }
    let mut drops: Vec<Statement> = Vec::new();
    let mut skipped: Vec<String> = Vec::new();
    let mut j: usize = 0;
    assert(current@.take(0) =~= Seq::<Table>::empty());
    while j < current.len()
        invariant
            j <= current.len(),
            names@.len() == orig.len(),
            forall|k: int| 0 <= k < orig.len() ==> (#[trigger] names@[k])@ == orig[k].name@,
            statements_view(drops@) == drops_plan(current@.take(j as int), orig, allow_destructive),
            Seq::new(skipped@.len(), |k: int| skipped@[k]@) == skipped_notes(current@.take(j as int), orig, allow_destructive),
        decreases current.len() - j,
    {
        proof {
            assert(current@.take(j as int + 1).drop_last() =~= current@.take(j as int));
            assert(current@.take(j as int + 1).last() == current@[j as int]);
        }
        let k = &current[j];
        let wanted = has_name(&names, &k.name);
        proof {
            if wanted {
                let w = choose|q: int| 0 <= q < names@.len() && (#[trigger] names@[q])@ == k.name@;
                assert(orig[w].name@ == k.name@);
            }
            if has_table(orig, k.name@) {
                let w = choose|q: int| 0 <= q < orig.len() && (#[trigger] orig[q]).name@ == k.name@;
                assert(names@[w]@ == k.name@);
            }
        }
        let ghost d0 = drops@;
        let ghost s0 = skipped@;
        if !wanted {
            if allow_destructive {
                drops.push(Statement::DropTable(DropTable { schema: clone_opt_string(&k.schema), name: k.name.clone() }));
                proof { assert(statements_view(drops@) =~= statements_view(d0).push(StatementView::Drop(opt_view(k.schema), k.name@))); }
            } else {
                skipped.push(k.name.clone());
                assert(Seq::new(skipped@.len(), |q: int| skipped@[q]@) =~= Seq::new(s0.len(), |q: int| s0[q]@).push(k.name@));
            }
        }
        j += 1;
    }
    proof { assert(current@.take(j as int) =~= current@); }
    let ghost av = alters@;
    let mut drops = drops;
    alters.append(&mut drops);
    assert(statements_view(alters@) =~= statements_view(av) + drops_plan(current@, orig, allow_destructive));
    let mut notes: Vec<DebugResults> = Vec::new();
    let mut q: usize = 0;
    let ni = identical.len();
    let ghost idv = identical@;
    let mut identical = identical;
    while q < ni
        invariant
            q <= ni,
            ni == idv.len(),
            identical@ == idv.subrange(q as int, ni as int),
            notes@.len() == q,
            notes_view(notes@) == Seq::new(q as nat, |k: int| (true, idv[k]@)),
        decreases ni - q,
    {
        let nm = identical.remove(0);
        proof { assert(identical@ =~= idv.subrange(q as int + 1, ni as int)); assert(nm == idv[q as int]); }
        let ghost nv0 = notes@;
        notes.push(DebugResults::TablesIdentical(nm));
        proof {
            assert forall|k: int| 0 <= k < q + 1 implies #[trigger] notes_view(notes@)[k] == (true, idv[k]@) by {
                if k < q {
                    assert(notes@[k] == nv0[k]);
                    assert(notes_view(nv0)[k] == (true, idv[k]@));
                }
            }
            assert(notes_view(notes@) =~= Seq::new(q as nat + 1, |k: int| (true, idv[k]@)));
        }
        q += 1;
    }
    let ns = skipped.len();
    let ghost skv = skipped@;
    let mut skipped = skipped;
    let mut q: usize = 0;
    while q < ns
        invariant
            q <= ns,
            ns == skv.len(),
            skipped@ == skv.subrange(q as int, ns as int),
            notes@.len() == ni + q,
            notes_view(notes@) == Seq::new(ni as nat, |k: int| (true, idv[k]@)) + Seq::new(q as nat, |k: int| (false, skv[k]@)),
        decreases ns - q,
    {
        let nm = skipped.remove(0);
        proof { assert(skipped@ =~= skv.subrange(q as int + 1, ns as int)); assert(nm == skv[q as int]); }
        let ghost nv0 = notes@;
        notes.push(DebugResults::SkippedDropTable(nm));
        proof {
            let target = Seq::new(ni as nat, |k: int| (true, idv[k]@)) + Seq::new(q as nat + 1, |k: int| (false, skv[k]@));
            let before = Seq::new(ni as nat, |k: int| (true, idv[k]@)) + Seq::new(q as nat, |k: int| (false, skv[k]@));
            assert forall|k: int| 0 <= k < ni + q + 1 implies #[trigger] notes_view(notes@)[k] == target[k] by {
                if k < ni + q {
                    assert(notes@[k] == nv0[k]);
                    assert(notes_view(nv0)[k] == before[k]);
                }
            }
            assert(notes_view(notes@) =~= target);
        }
        q += 1;
    }
    proof {
        assert(notes_view(notes@) =~= notes_plan(current@, orig, allow_destructive));
    }
    (creates, alters, notes)
}

} // verus!
