use vstd::prelude::*;
use crate::migrate::{
    add_required_column_plan, alter_column_plan, alters_plan, columns_plan, created_tables, creates_plan,
    dependencies, dependency_ordered, drops_plan, find_column, find_table, fk_targets, has_table,
    identical_notes, is_migration, is_permutation, names_a_table, notes_view, opt_view, skipped_notes,
    statement_view, statements_view, table_plan, unique_names, waits_on_later, ActionView, Migration,
    StatementView,
};
use crate::query::create_table::CreateTable;
use crate::schema::column::Column;
use crate::schema::column_type::{lossy_same, same_type, Type};
use crate::schema::constraint::constraint_target;
use crate::schema::table::Table;

verus! {

/// No two tables share a name.
pub open spec fn unique_table_names(ts: Seq<Table>) -> bool {
    forall|i: int, j: int| 0 <= i < j < ts.len() ==> (#[trigger] ts[i]).name@ != (#[trigger] ts[j]).name@
}

/// No two columns share a name.
pub open spec fn unique_column_names(cs: Seq<Column>) -> bool {
    forall|i: int, j: int| 0 <= i < j < cs.len() ==> (#[trigger] cs[i]).name@ != (#[trigger] cs[j]).name@
}

/// Table names are unique in the schema and column names within each table.
pub open spec fn valid_tables(ts: Seq<Table>) -> bool {
    &&& unique_table_names(ts)
    &&& forall|i: int| 0 <= i < ts.len() ==> unique_column_names((#[trigger] ts[i]).columns@)
}

proof fn lemma_same_type_refl(t: Type)
    ensures
        same_type(t, t),
    decreases t,
{
    if let Type::Array(inner) = t {
        lemma_same_type_refl(*inner);
    }
}

proof fn lemma_find_column_unique(cs: Seq<Column>, j: int)
    requires
        unique_column_names(cs),
        0 <= j < cs.len(),
    ensures
        find_column(cs, cs[j].name@) == Some(cs[j]),
    decreases cs.len(),
{
    if j < cs.len() - 1 {
        let d = cs.drop_last();
        assert(unique_column_names(d)) by {
            assert forall|a: int, b: int| 0 <= a < b < d.len() implies (#[trigger] d[a]).name@ != (#[trigger] d[b]).name@ by {
                assert(d[a] == cs[a] && d[b] == cs[b]);
            }
        }
        assert(cs[j].name@ != cs[cs.len() - 1].name@);
        lemma_find_column_unique(d, j);
        assert(d[j] == cs[j]);
    }
}

proof fn lemma_find_column_absent(cs: Seq<Column>, x: Seq<char>)
    requires
        forall|j: int| 0 <= j < cs.len() ==> (#[trigger] cs[j]).name@ != x,
    ensures
        find_column(cs, x) is None,
    decreases cs.len(),
{
    if cs.len() > 0 {
        assert(cs[cs.len() - 1].name@ != x);
        let d = cs.drop_last();
        assert forall|j: int| 0 <= j < d.len() implies (#[trigger] d[j]).name@ != x by {
            assert(d[j] == cs[j]);
        }
        lemma_find_column_absent(d, x);
    }
}

proof fn lemma_find_table_unique(ts: Seq<Table>, j: int)
    requires
        unique_table_names(ts),
        0 <= j < ts.len(),
    ensures
        find_table(ts, ts[j].name@) == ts[j],
    decreases ts.len(),
{
    if j < ts.len() - 1 {
        let d = ts.drop_last();
        assert(unique_table_names(d)) by {
            assert forall|a: int, b: int| 0 <= a < b < d.len() implies (#[trigger] d[a]).name@ != (#[trigger] d[b]).name@ by {
                assert(d[a] == ts[a] && d[b] == ts[b]);
            }
        }
        assert(ts[j].name@ != ts[ts.len() - 1].name@);
        lemma_find_table_unique(d, j);
        assert(d[j] == ts[j]);
    }
}

/// A table compared with itself needs no change, column by column.
proof fn lemma_columns_unchanged(cs: Seq<Column>, schema: Option<String>, table: Seq<char>, j: int)
    requires
        unique_column_names(cs),
        0 <= j <= cs.len(),
    ensures
        columns_plan(cs, schema, table, cs.take(j)) == (Seq::<StatementView>::empty(), Seq::<ActionView>::empty()),
    decreases j,
{
    if j > 0 {
        lemma_columns_unchanged(cs, schema, table, j - 1);
        assert(cs.take(j).drop_last() =~= cs.take(j - 1));
        let c = cs[j - 1];
        assert(cs.take(j).last() == c);
        lemma_find_column_unique(cs, j - 1);
        lemma_same_type_refl(c.typ);
        assert(alter_column_plan(table, c, c) =~= Seq::<ActionView>::empty());
        assert(Seq::<ActionView>::empty() + Seq::<ActionView>::empty() =~= Seq::<ActionView>::empty());
    } else {
        assert(cs.take(0) =~= Seq::<Column>::empty());
    }
}

proof fn lemma_same_schema_prefix(a: Seq<Table>, allow: bool, j: int)
    requires
        valid_tables(a),
        0 <= j <= a.len(),
    ensures
        creates_plan(a, a.take(j)) == Seq::<StatementView>::empty(),
        alters_plan(a, a.take(j)) == Seq::<StatementView>::empty(),
        identical_notes(a, a.take(j)) == Seq::new(j as nat, |i: int| a[i].name@),
        drops_plan(a.take(j), a, allow) == Seq::<StatementView>::empty(),
        skipped_notes(a.take(j), a, allow) == Seq::<Seq<char>>::empty(),
    decreases j,
{
    if j > 0 {
        lemma_same_schema_prefix(a, allow, j - 1);
        let t = a[j - 1];
        assert(a.take(j).drop_last() =~= a.take(j - 1));
        assert(a.take(j).last() == t);
        assert(has_table(a, t.name@));
        lemma_find_table_unique(a, j - 1);
        lemma_columns_unchanged(t.columns@, t.schema, t.name@, t.columns@.len() as int);
        assert(t.columns@.take(t.columns@.len() as int) =~= t.columns@);
        assert(table_plan(t, t) =~= Seq::<StatementView>::empty());
        assert(Seq::<StatementView>::empty() + table_plan(t, t) =~= Seq::<StatementView>::empty());
        assert(Seq::new((j - 1) as nat, |i: int| a[i].name@).push(t.name@) =~= Seq::new(j as nat, |i: int| a[i].name@));
    } else {
        assert(a.take(0) =~= Seq::<Table>::empty());
        assert(Seq::new(0, |i: int| a[i].name@) =~= Seq::<Seq<char>>::empty());
    }
}

/// Migrating a schema to itself emits no statement, and notes every table as identical.
pub proof fn lemma_migrate_to_itself(a: Seq<Table>, allow_destructive: bool, r: Migration)
    requires
        valid_tables(a),
        is_migration(a, a, allow_destructive, r),
    ensures
        r.statements@.len() == 0,
        notes_view(r.debug_results@) == Seq::new(a.len(), |i: int| (true, a[i].name@)),
{
    lemma_same_schema_prefix(a, allow_destructive, a.len() as int);
    assert(a.take(a.len() as int) =~= a);
    assert(notes_view(r.debug_results@) =~= Seq::new(a.len(), |i: int| (true, a[i].name@)));
}

/// Adding a column that may not be null to an existing table takes exactly three
/// statements, in order: add it as nullable, fill it with the backfill marker, set
/// it not null.
pub proof fn lemma_add_required_column(k: Table, t: Table, c: Column, allow_destructive: bool, r: Migration)
    requires
        unique_column_names(k.columns@),
        t.name@ == k.name@,
        t.columns@ == k.columns@.push(c),
        !c.nullable,
        forall|j: int| 0 <= j < k.columns@.len() ==> (#[trigger] k.columns@[j]).name@ != c.name@,
        is_migration(seq![k], seq![t], allow_destructive, r),
    ensures
        statements_view(r.statements@) == add_required_column_plan(t.schema, t.name@, c),
        r.statements@.len() == 3,
        r.statements@[1] is Update,
        opt_view(r.statements@[1]->Update_0.schema) == opt_view(t.schema),
{
    let cur = seq![k];
    let des = seq![t];
    assert(has_table(cur, t.name@)) by {
        assert(cur[0].name@ == t.name@);
    }
    assert(has_table(des, k.name@)) by {
        assert(des[0].name@ == k.name@);
    }
    assert(des.drop_last() =~= Seq::<Table>::empty());
    assert(cur.drop_last() =~= Seq::<Table>::empty());
    assert(des.last() == t);
    assert(cur.last() == k);
    assert(creates_plan(cur, Seq::<Table>::empty()) == Seq::<StatementView>::empty());
    assert(alters_plan(cur, Seq::<Table>::empty()) == Seq::<StatementView>::empty());
    assert(creates_plan(cur, des) =~= Seq::<StatementView>::empty());
    assert(find_table(cur, t.name@) == k);
    lemma_columns_unchanged(k.columns@, t.schema, t.name@, k.columns@.len() as int);
    assert(k.columns@.take(k.columns@.len() as int) =~= k.columns@);
    assert(t.columns@.drop_last() =~= k.columns@);
    lemma_find_column_absent(k.columns@, c.name@);
    let plan = add_required_column_plan(t.schema, t.name@, c);
    assert(columns_plan(k.columns@, t.schema, t.name@, t.columns@) == (Seq::<StatementView>::empty() + plan, Seq::<ActionView>::empty()));
    assert(Seq::<StatementView>::empty() + plan =~= plan);
    assert(table_plan(k, t) =~= plan);
    assert(alters_plan(cur, des) =~= Seq::<StatementView>::empty() + plan);
    assert(drops_plan(Seq::<Table>::empty(), des, allow_destructive) == Seq::<StatementView>::empty());
    assert(drops_plan(cur, des, allow_destructive) =~= Seq::<StatementView>::empty());
    assert(alters_plan(cur, des) + drops_plan(cur, des, allow_destructive) =~= plan);
    assert forall|i: int| 0 <= i < 3 implies #[trigger] statements_view(r.statements@)[i] == plan[i] by {
        assert(statement_view(r.statements@[0 + i]) == plan[i]);
    }
    assert(statements_view(r.statements@) =~= plan);
    assert(statement_view(r.statements@[1]) == plan[1]);
}

/// A DROP TABLE of the table named `name`.
pub open spec fn drops_table(v: StatementView, name: Seq<char>) -> bool {
    v is Drop && v->Drop_1 == name
}

proof fn lemma_creates_are_creates(cur: Seq<Table>, des: Seq<Table>)
    ensures
        forall|q: int| 0 <= q < creates_plan(cur, des).len() ==> (#[trigger] creates_plan(cur, des)[q]) is Create,
    decreases des.len(),
{
    if des.len() > 0 {
        lemma_creates_are_creates(cur, des.drop_last());
    }
}

proof fn lemma_columns_no_drop(cur: Seq<Column>, schema: Option<String>, table: Seq<char>, cs: Seq<Column>)
    ensures
        forall|q: int| 0 <= q < columns_plan(cur, schema, table, cs).0.len() ==> !((#[trigger] columns_plan(cur, schema, table, cs).0[q]) is Drop),
    decreases cs.len(),
{
    if cs.len() > 0 {
        lemma_columns_no_drop(cur, schema, table, cs.drop_last());
    }
}

proof fn lemma_alters_no_drop(cur: Seq<Table>, des: Seq<Table>)
    ensures
        forall|q: int| 0 <= q < alters_plan(cur, des).len() ==> !((#[trigger] alters_plan(cur, des)[q]) is Drop),
    decreases des.len(),
{
    if des.len() > 0 {
        lemma_alters_no_drop(cur, des.drop_last());
        let t = des.last();
        if has_table(cur, t.name@) {
            let k = find_table(cur, t.name@);
            lemma_columns_no_drop(k.columns@, t.schema, t.name@, t.columns@);
            let prev = alters_plan(cur, des.drop_last());
            let tp = table_plan(k, t);
            assert forall|q: int| 0 <= q < tp.len() implies !((#[trigger] tp[q]) is Drop) by {
                let st = columns_plan(k.columns@, t.schema, t.name@, t.columns@).0;
                if q < st.len() {
                    assert(tp[q] == st[q]);
                }
            }
            assert forall|q: int| 0 <= q < (prev + tp).len() implies !((#[trigger] (prev + tp)[q]) is Drop) by {
                if q < prev.len() {
                    assert((prev + tp)[q] == prev[q]);
                } else {
                    assert((prev + tp)[q] == tp[q - prev.len()]);
                }
            }
        }
    }
}

proof fn lemma_no_drops(cur: Seq<Table>, des: Seq<Table>)
    ensures
        drops_plan(cur, des, false) == Seq::<StatementView>::empty(),
    decreases cur.len(),
{
    if cur.len() > 0 {
        lemma_no_drops(cur.drop_last(), des);
    }
}

proof fn lemma_drop_once(cur: Seq<Table>, des: Seq<Table>, i: int, j: int)
    requires
        unique_table_names(cur),
        0 <= i < cur.len(),
        !has_table(des, cur[i].name@),
        0 <= j <= cur.len(),
    ensures
        j <= i ==> forall|q: int| 0 <= q < drops_plan(cur.take(j), des, true).len() ==> !drops_table(
            #[trigger] drops_plan(cur.take(j), des, true)[q],
            cur[i].name@,
        ),
        j > i ==> exists|q: int|
            0 <= q < drops_plan(cur.take(j), des, true).len() && drops_plan(cur.take(j), des, true)[q]
                == StatementView::Drop(opt_view(cur[i].schema), cur[i].name@) && forall|q2: int|
                0 <= q2 < drops_plan(cur.take(j), des, true).len() && drops_table(
                    #[trigger] drops_plan(cur.take(j), des, true)[q2],
                    cur[i].name@,
                ) ==> q2 == q,
    decreases j,
{
    let x = cur[i].name@;
    if j == 0 {
        assert(cur.take(0) =~= Seq::<Table>::empty());
    } else {
        lemma_drop_once(cur, des, i, j - 1);
        assert(cur.take(j).drop_last() =~= cur.take(j - 1));
        assert(cur.take(j).last() == cur[j - 1]);
        let prev = drops_plan(cur.take(j - 1), des, true);
        let d = drops_plan(cur.take(j), des, true);
        if j - 1 == i {
            assert(d == prev.push(StatementView::Drop(opt_view(cur[i].schema), x)));
            assert forall|q2: int| 0 <= q2 < d.len() && drops_table(#[trigger] d[q2], x) implies q2 == prev.len() by {
                if q2 < prev.len() {
                    assert(d[q2] == prev[q2]);
                }
            }
            assert(drops_table(d[prev.len() as int], x));
        } else {
            if j - 1 != i {
                if i < j - 1 {
                    assert(cur[i].name@ != cur[j - 1].name@);
                } else {
                    assert(cur[j - 1].name@ != cur[i].name@);
                }
            }
            if d != prev {
                assert(d == prev.push(StatementView::Drop(opt_view(cur[j - 1].schema), cur[j - 1].name@)));
                assert(!drops_table(d[prev.len() as int], x));
                if j <= i {
                    assert forall|q: int| 0 <= q < d.len() implies !drops_table(#[trigger] d[q], x) by {
                        if q < prev.len() {
                            assert(d[q] == prev[q]);
                        }
                    }
                } else {
                    let q = choose|q: int|
                        0 <= q < prev.len() && prev[q] == StatementView::Drop(opt_view(cur[i].schema), x)
                            && forall|q2: int|
                            0 <= q2 < prev.len() && drops_table(#[trigger] prev[q2], x) ==> q2 == q;
                    assert(d[q] == prev[q]);
                    assert forall|q2: int| 0 <= q2 < d.len() && drops_table(#[trigger] d[q2], x) implies q2 == q by {
                        if q2 < prev.len() {
                            assert(d[q2] == prev[q2]);
                        }
                    }
                }
            }
        }
    }
}

proof fn lemma_skip_once(cur: Seq<Table>, des: Seq<Table>, i: int, j: int)
    requires
        unique_table_names(cur),
        0 <= i < cur.len(),
        !has_table(des, cur[i].name@),
        0 <= j <= cur.len(),
    ensures
        j <= i ==> forall|q: int| 0 <= q < skipped_notes(cur.take(j), des, false).len() ==> (#[trigger] skipped_notes(cur.take(j), des, false)[q]) != cur[i].name@,
        j > i ==> exists|q: int|
            0 <= q < skipped_notes(cur.take(j), des, false).len() && skipped_notes(cur.take(j), des, false)[q] == cur[i].name@
                && forall|q2: int|
                0 <= q2 < skipped_notes(cur.take(j), des, false).len() && (#[trigger] skipped_notes(cur.take(j), des, false)[q2])
                    == cur[i].name@ ==> q2 == q,
    decreases j,
{
    let x = cur[i].name@;
    if j == 0 {
        assert(cur.take(0) =~= Seq::<Table>::empty());
    } else {
        lemma_skip_once(cur, des, i, j - 1);
        assert(cur.take(j).drop_last() =~= cur.take(j - 1));
        assert(cur.take(j).last() == cur[j - 1]);
        let prev = skipped_notes(cur.take(j - 1), des, false);
        let d = skipped_notes(cur.take(j), des, false);
        if j - 1 == i {
            assert(d == prev.push(x));
            assert forall|q2: int| 0 <= q2 < d.len() && (#[trigger] d[q2]) == x implies q2 == prev.len() by {
                if q2 < prev.len() {
                    assert(d[q2] == prev[q2]);
                }
            }
            assert(d[prev.len() as int] == x);
        } else {
            if i < j - 1 {
                assert(cur[i].name@ != cur[j - 1].name@);
            } else {
                assert(cur[j - 1].name@ != cur[i].name@);
            }
            if d != prev {
                assert(d == prev.push(cur[j - 1].name@));
                if j <= i {
                    assert forall|q: int| 0 <= q < d.len() implies (#[trigger] d[q]) != x by {
                        if q < prev.len() {
                            assert(d[q] == prev[q]);
                        }
                    }
                } else {
                    let q = choose|q: int|
                        0 <= q < prev.len() && prev[q] == x && forall|q2: int|
                            0 <= q2 < prev.len() && (#[trigger] prev[q2]) == x ==> q2 == q;
                    assert(d[q] == prev[q]);
                    assert forall|q2: int| 0 <= q2 < d.len() && (#[trigger] d[q2]) == x implies q2 == q by {
                        if q2 < prev.len() {
                            assert(d[q2] == prev[q2]);
                        }
                    }
                }
            }
        }
    }
}

/// A table that exists but is no longer wanted is dropped by exactly one statement,
/// qualified by the table's own schema, when destructive changes are allowed;
/// otherwise no statement drops it and exactly
/// one note says its drop was skipped.
pub proof fn lemma_unwanted_table(cur: Seq<Table>, des: Seq<Table>, allow_destructive: bool, r: Migration, i: int)
    requires
        unique_table_names(cur),
        0 <= i < cur.len(),
        !has_table(des, cur[i].name@),
        is_migration(cur, des, allow_destructive, r),
    ensures
        allow_destructive ==> exists|m: int|
            0 <= m < r.statements@.len() && drops_table(statement_view(r.statements@[m]), cur[i].name@)
                && r.statements@[m] is DropTable && opt_view(r.statements@[m]->DropTable_0.schema)
                == opt_view(cur[i].schema) && forall|m2: int|
                0 <= m2 < r.statements@.len() && drops_table(#[trigger] statement_view(r.statements@[m2]), cur[i].name@)
                    ==> m2 == m,
        !allow_destructive ==> forall|m: int|
            0 <= m < r.statements@.len() ==> !drops_table(#[trigger] statement_view(r.statements@[m]), cur[i].name@),
        !allow_destructive ==> exists|j: int|
            0 <= j < r.debug_results@.len() && notes_view(r.debug_results@)[j] == (false, cur[i].name@)
                && forall|j2: int|
                0 <= j2 < r.debug_results@.len() && #[trigger] notes_view(r.debug_results@)[j2] == (false, cur[i].name@)
                    ==> j2 == j,
{
    let x = cur[i].name@;
    let creates = creates_plan(cur, des);
    let alters = alters_plan(cur, des);
    let drops = drops_plan(cur, des, allow_destructive);
    let rest = alters + drops;
    let nc = creates.len() as int;
    lemma_creates_are_creates(cur, des);
    lemma_alters_no_drop(cur, des);
    assert(cur.take(cur.len() as int) =~= cur);
    let p = choose|p: Seq<int>|
        is_permutation(p, nc) && forall|m: int|
            0 <= m < nc ==> #[trigger] statement_view(r.statements@[m]) == creates[p[m]];
    assert forall|m: int| 0 <= m < nc implies !drops_table(#[trigger] statement_view(r.statements@[m]), x) by {
        assert(creates[p[m]] is Create);
    }
    assert forall|m: int| nc <= m < nc + alters.len() implies !drops_table(#[trigger] statement_view(r.statements@[m]), x) by {
        assert(statement_view(r.statements@[nc + (m - nc)]) == rest[m - nc]);
        assert(rest[m - nc] == alters[m - nc]);
    }
    if allow_destructive {
        lemma_drop_once(cur, des, i, cur.len() as int);
        let q = choose|q: int|
            0 <= q < drops.len() && drops[q] == StatementView::Drop(opt_view(cur[i].schema), x)
                && forall|q2: int| 0 <= q2 < drops.len() && drops_table(#[trigger] drops[q2], x) ==> q2 == q;
        let m = nc + alters.len() + q;
        assert(statement_view(r.statements@[nc + (alters.len() + q)]) == rest[alters.len() + q]);
        assert(rest[alters.len() + q] == drops[q]);
        assert forall|m2: int|
            0 <= m2 < r.statements@.len() && drops_table(#[trigger] statement_view(r.statements@[m2]), x) implies m2 == m by {
            if m2 >= nc + alters.len() {
                let q2 = m2 - nc - alters.len();
                assert(statement_view(r.statements@[nc + (alters.len() + q2)]) == rest[alters.len() + q2]);
                assert(rest[alters.len() + q2] == drops[q2]);
            }
        }
    } else {
        lemma_no_drops(cur, des);
        assert forall|m: int| 0 <= m < r.statements@.len() implies !drops_table(#[trigger] statement_view(r.statements@[m]), x) by {
            if m >= nc + alters.len() {
                assert(statement_view(r.statements@[nc + (m - nc)]) == rest[m - nc]);
            }
        }
        lemma_skip_once(cur, des, i, cur.len() as int);
        let sk = skipped_notes(cur, des, false);
        let ids = identical_notes(cur, des);
        let q = choose|q: int|
            0 <= q < sk.len() && sk[q] == x && forall|q2: int| 0 <= q2 < sk.len() && (#[trigger] sk[q2]) == x ==> q2 == q;
        let nv = notes_view(r.debug_results@);
        assert(nv.len() == r.debug_results@.len());
        let j = ids.len() + q;
        assert(nv[j] == (false, x));
        assert forall|j2: int| 0 <= j2 < r.debug_results@.len() && #[trigger] notes_view(r.debug_results@)[j2] == (false, x) implies j2 == j by {
            if j2 >= ids.len() {
                assert(sk[j2 - ids.len()] == x);
            }
        }
    }
}

/// The CREATE TABLE planned for a wanted table.
pub open spec fn create_of(t: Table) -> StatementView {
    StatementView::Create(opt_view(t.schema), t.name@, t.columns@)
}

proof fn lemma_creates_from_wanted(cur: Seq<Table>, des: Seq<Table>)
    ensures
        forall|q: int|
            0 <= q < creates_plan(cur, des).len() ==> exists|i: int|
                0 <= i < des.len() && #[trigger] creates_plan(cur, des)[q] == create_of(des[i]),
    decreases des.len(),
{
    if des.len() > 0 {
        let d = des.drop_last();
        lemma_creates_from_wanted(cur, d);
        let prev = creates_plan(cur, d);
        assert forall|q: int| 0 <= q < creates_plan(cur, des).len() implies exists|i: int|
            0 <= i < des.len() && #[trigger] creates_plan(cur, des)[q] == create_of(des[i]) by {
            if q < prev.len() {
                let i = choose|i: int| 0 <= i < d.len() && #[trigger] prev[q] == create_of(d[i]);
                assert(d[i] == des[i]);
                assert(creates_plan(cur, des)[q] == prev[q]);
            } else {
                assert(creates_plan(cur, des)[q] == create_of(des[des.len() - 1]));
            }
        }
    }
}

proof fn lemma_creates_unique(cur: Seq<Table>, des: Seq<Table>)
    requires
        unique_table_names(des),
    ensures
        forall|q1: int, q2: int|
            0 <= q1 < q2 < creates_plan(cur, des).len() ==> (#[trigger] creates_plan(cur, des)[q1])->Create_1
                != (#[trigger] creates_plan(cur, des)[q2])->Create_1,
    decreases des.len(),
{
    if des.len() > 0 {
        let d = des.drop_last();
        assert(unique_table_names(d)) by {
            assert forall|a: int, b: int| 0 <= a < b < d.len() implies (#[trigger] d[a]).name@ != (#[trigger] d[b]).name@ by {
                assert(d[a] == des[a] && d[b] == des[b]);
            }
        }
        lemma_creates_unique(cur, d);
        lemma_creates_from_wanted(cur, d);
        let prev = creates_plan(cur, d);
        let cp = creates_plan(cur, des);
        assert forall|q1: int, q2: int| 0 <= q1 < q2 < cp.len() implies (#[trigger] cp[q1])->Create_1 != (#[trigger] cp[q2])->Create_1 by {
            if q2 < prev.len() {
                assert(cp[q1] == prev[q1] && cp[q2] == prev[q2]);
            } else {
                assert(cp[q1] == prev[q1]);
                let i = choose|i: int| 0 <= i < d.len() && #[trigger] prev[q1] == create_of(d[i]);
                assert(d[i] == des[i]);
                assert(des[i].name@ != des[des.len() - 1].name@);
            }
        }
    }
}

proof fn lemma_create_planned(cur: Seq<Table>, des: Seq<Table>, i: int)
    requires
        0 <= i < des.len(),
        !has_table(cur, des[i].name@),
    ensures
        exists|q: int| 0 <= q < creates_plan(cur, des).len() && creates_plan(cur, des)[q] == create_of(des[i]),
    decreases des.len(),
{
    if i < des.len() - 1 {
        let d = des.drop_last();
        assert(d[i] == des[i]);
        lemma_create_planned(cur, d, i);
        let q = choose|q: int| 0 <= q < creates_plan(cur, d).len() && creates_plan(cur, d)[q] == create_of(d[i]);
        assert(creates_plan(cur, des)[q] == creates_plan(cur, d)[q]);
    } else {
        let q = creates_plan(cur, des.drop_last()).len() as int;
        assert(creates_plan(cur, des)[q] == create_of(des[i]));
    }
}

proof fn lemma_no_fk_targets(cs: Seq<Column>)
    requires
        forall|j: int| 0 <= j < cs.len() ==> (#[trigger] cs[j]).constraint is None,
    ensures
        fk_targets(cs) == Seq::<Seq<char>>::empty(),
    decreases cs.len(),
{
    if cs.len() > 0 {
        let d = cs.drop_last();
        assert(cs[cs.len() - 1].constraint is None);
        assert forall|j: int| 0 <= j < d.len() implies (#[trigger] d[j]).constraint is None by {
            assert(d[j] == cs[j]);
        }
        lemma_no_fk_targets(d);
    }
}

proof fn lemma_fk_target(cs: Seq<Column>, j: int)
    requires
        0 <= j < cs.len(),
        cs[j].constraint is Some,
    ensures
        fk_targets(cs).contains(constraint_target(cs[j].constraint->0)),
    decreases cs.len(),
{
    let x = constraint_target(cs[j].constraint->0);
    let prev = fk_targets(cs.drop_last());
    if j < cs.len() - 1 {
        assert(cs.drop_last()[j] == cs[j]);
        lemma_fk_target(cs.drop_last(), j);
        let q = choose|q: int| 0 <= q < prev.len() && prev[q] == x;
        assert(fk_targets(cs)[q] == x);
    } else {
        assert(fk_targets(cs)[prev.len() as int] == x);
    }
}

/// When a new table refers through a foreign key to another new table that refers to
/// none, the referenced table is created first.
pub proof fn lemma_referenced_table_first(
    cur: Seq<Table>,
    des: Seq<Table>,
    allow_destructive: bool,
    r: Migration,
    a: int,
    b: int,
    col: int,
)
    requires
        unique_table_names(des),
        0 <= a < des.len(),
        0 <= b < des.len(),
        a != b,
        !has_table(cur, des[a].name@),
        !has_table(cur, des[b].name@),
        forall|j: int| 0 <= j < des[b].columns@.len() ==> (#[trigger] des[b].columns@[j]).constraint is None,
        0 <= col < des[a].columns@.len(),
        des[a].columns@[col].constraint is Some,
        constraint_target(des[a].columns@[col].constraint->0) == des[b].name@,
        is_migration(cur, des, allow_destructive, r),
    ensures
        exists|ia: int, ib: int|
            0 <= ib < ia < r.statements@.len() && r.statements@[ia] is CreateTable
                && r.statements@[ia]->CreateTable_0.name@ == des[a].name@ && r.statements@[ib] is CreateTable
                && r.statements@[ib]->CreateTable_0.name@ == des[b].name@,
{
    let cp = creates_plan(cur, des);
    let nc = cp.len() as int;
    let stm = r.statements@;
    let out = created_tables(stm, nc);
    let p = choose|p: Seq<int>|
        is_permutation(p, nc) && forall|m: int| 0 <= m < nc ==> #[trigger] statement_view(stm[m]) == cp[p[m]];
    assert forall|m: int| 0 <= m < nc implies (#[trigger] out[m]).name@ == cp[p[m]]->Create_1 && out[m].columns@
        == cp[p[m]]->Create_2 by {
        assert(stm[m] is CreateTable);
        assert(statement_view(stm[m]) == cp[p[m]]);
    }
    lemma_creates_unique(cur, des);
    assert(unique_names(out)) by {
        assert forall|m1: int, m2: int| 0 <= m1 < m2 < out.len() implies (#[trigger] out[m1]).name@ != (#[trigger] out[m2]).name@ by {
            assert(p[m1] != p[m2]);
            if p[m1] < p[m2] {
                assert(cp[p[m1]]->Create_1 != cp[p[m2]]->Create_1);
            } else {
                assert(cp[p[m2]]->Create_1 != cp[p[m1]]->Create_1);
            }
        }
    }
    let k = choose|k: int| dependency_ordered(out, k);
    lemma_create_planned(cur, des, a);
    lemma_create_planned(cur, des, b);
    let qa = choose|q: int| 0 <= q < nc && cp[q] == create_of(des[a]);
    let qb = choose|q: int| 0 <= q < nc && cp[q] == create_of(des[b]);
    assert(p.contains(qa));
    assert(p.contains(qb));
    let ma = choose|m: int| 0 <= m < p.len() && p[m] == qa;
    let mb = choose|m: int| 0 <= m < p.len() && p[m] == qb;
    assert(out[ma].name@ == des[a].name@ && out[ma].columns@ == des[a].columns@);
    assert(out[mb].name@ == des[b].name@ && out[mb].columns@ == des[b].columns@);
    lemma_no_fk_targets(des[b].columns@);
    assert(dependencies(out[mb]) =~= Set::<Seq<char>>::empty());
    if mb >= k {
        assert(waits_on_later(out, k, out[mb]));
    }
    assert(mb < k);
    if ma < k {
        let d = des[b].name@;
        lemma_fk_target(des[a].columns@, col);
        assert(dependencies(out[ma]).contains(d));
        assert(names_a_table(out, d));
        if a < b {
            assert(des[a].name@ != des[b].name@);
        } else {
            assert(des[b].name@ != des[a].name@);
        }
        let j = choose|j: int| 0 <= j < ma && (#[trigger] out[j]).name@ == d;
        if j != mb {
            if j < mb {
                assert(out[j].name@ != out[mb].name@);
            } else {
                assert(out[mb].name@ != out[j].name@);
            }
        }
    }
    assert(mb < ma);
    assert(stm[ma] is CreateTable && stm[mb] is CreateTable);
    assert(stm[ma]->CreateTable_0 == out[ma]);
    assert(stm[mb]->CreateTable_0 == out[mb]);
}

} // verus!
