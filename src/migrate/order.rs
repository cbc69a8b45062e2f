use vstd::prelude::*;
use crate::query::create_table::CreateTable;
use crate::schema::column::Column;
use crate::schema::constraint::Constraint;
use crate::util::str_eq;
use topo_sort::TopoSort;

verus! {

#[verifier::external_type_specification]
#[verifier::external_body]
#[verifier::reject_recursive_types(T)]
pub struct ExTopoSort<T: Eq + std::hash::Hash>(TopoSort<T>);

/// The dependency graph a `TopoSort` holds: each node's set of dependencies.
pub uninterp spec fn topo_graph(t: TopoSort<String>) -> Map<Seq<char>, Set<Seq<char>>>;

/// Relies on `TopoSort::new`: a sorter holding no node.
#[verifier::external_body]
fn topo_new() -> (sorter: TopoSort<String>)
    ensures
        topo_graph(sorter).dom().is_empty(),
{
    TopoSort::new()
}

/// Relies on `TopoSort::insert`: the node is mapped to the set of its dependencies,
/// replacing what it was mapped to before.
#[verifier::external_body]
fn topo_insert(t: &mut TopoSort<String>, node: String, dependencies: Vec<String>)
    ensures
        topo_graph(*final(t)) == topo_graph(*old(t)).insert(
            node@,
            Seq::new(dependencies@.len(), |i: int| dependencies@[i]@).to_set(),
        ),
{
    t.insert(node, dependencies)
}

/// Relies on `TopoSort::to_owned_vec_nodes`, built with the crate's `indexmap`
/// feature so that nodes are walked in insertion order and ties come out alike on
/// every run: the nodes in an order in which each comes after its dependencies; a
/// dependency that is not a node, or the node itself, is not waited for. Sorting stops at a cycle, so a node is left out exactly when it
/// waits, directly or not, on a node that is left out; the full and the partial
/// result are handed back alike.
#[verifier::external_body]
fn topo_order(t: TopoSort<String>) -> (r: Vec<String>)
    ensures
        forall|i: int| 0 <= i < r@.len() ==> topo_graph(t).dom().contains((#[trigger] r@[i])@),
        forall|i: int, j: int| 0 <= i < j < r@.len() ==> (#[trigger] r@[i])@ != (#[trigger] r@[j])@,
        forall|i: int, d: Seq<char>|
            0 <= i < r@.len() && #[trigger] topo_graph(t)[r@[i]@].contains(d) && topo_graph(t).dom().contains(d)
                && d != r@[i]@ ==> exists|j: int| 0 <= j < i && (#[trigger] r@[j])@ == d,
        forall|k: Seq<char>|
            #[trigger] topo_graph(t).dom().contains(k) && (forall|i: int| 0 <= i < r@.len() ==> r@[i]@ != k) ==> exists|d: Seq<char>|
                #[trigger] topo_graph(t)[k].contains(d) && topo_graph(t).dom().contains(d) && d != k && forall|i: int|
                    0 <= i < r@.len() ==> r@[i]@ != d,
{
    match t.to_owned_vec_nodes() {
        topo_sort::SortResults::Full(v) => v,
        topo_sort::SortResults::Partial(v) => v,
    }
}

/// The tables the columns refer to through foreign keys, in column order.
pub open spec fn fk_targets(cols: Seq<Column>) -> Seq<Seq<char>>
    decreases cols.len(),
{
    if cols.len() == 0 {
        Seq::empty()
    } else {
        let prev = fk_targets(cols.drop_last());
        match cols.last().constraint {
            Some(Constraint::ForeignKey(fk)) => prev.push(fk.table@),
            None => prev,
        }
    }
}

/// The tables a new table refers to through foreign keys.
pub open spec fn dependencies(c: CreateTable) -> Set<Seq<char>> {
    fk_targets(c.columns@).to_set()
}

/// Each new table's name mapped to its dependencies (the last table of a name wins).
pub open spec fn graph_of(v: Seq<CreateTable>) -> Map<Seq<char>, Set<Seq<char>>>
    decreases v.len(),
{
    if v.len() == 0 {
        Map::empty()
    } else {
        graph_of(v.drop_last()).insert(v.last().name@, dependencies(v.last()))
    }
}

pub open spec fn unique_names(v: Seq<CreateTable>) -> bool {
    forall|i: int, j: int| 0 <= i < j < v.len() ==> (#[trigger] v[i]).name@ != (#[trigger] v[j]).name@
}

pub open spec fn names_a_table(v: Seq<CreateTable>, d: Seq<char>) -> bool {
    exists|j: int| 0 <= j < v.len() && (#[trigger] v[j]).name@ == d
}

/// Up to position `k`, every table comes after the tables of `v` it refers to;
/// every table from `k` on refers to a table of `v` that does not come before `k`
/// (it is on a cycle of references, or waits on one).
pub open spec fn dependency_ordered(v: Seq<CreateTable>, k: int) -> bool {
    &&& 0 <= k <= v.len()
    &&& forall|m: int, d: Seq<char>|
        0 <= m < k && #[trigger] dependencies(v[m]).contains(d) && names_a_table(v, d) && d != v[m].name@
            ==> exists|j: int| 0 <= j < m && (#[trigger] v[j]).name@ == d
    &&& forall|m: int|
        k <= m < v.len() ==> #[trigger] waits_on_later(v, k, v[m])
}

/// `c` refers to a table of `v` that does not come before position `k`.
pub open spec fn waits_on_later(v: Seq<CreateTable>, k: int, c: CreateTable) -> bool {
    exists|d: Seq<char>|
            #[trigger] dependencies(c).contains(d) && names_a_table(v, d) && d != c.name@ && forall|j: int|
                0 <= j < k ==> (#[trigger] v[j]).name@ != d
}

pub open spec fn is_permutation(p: Seq<int>, n: int) -> bool {
    &&& p.len() == n
    &&& forall|i: int| 0 <= i < n ==> 0 <= #[trigger] p[i] < n
    &&& forall|i: int, j: int| 0 <= i < j < n ==> #[trigger] p[i] != #[trigger] p[j]
    &&& forall|j: int| 0 <= j < n ==> #[trigger] p.contains(j)
}

proof fn lemma_graph_dom(v: Seq<CreateTable>, x: Seq<char>)
    ensures
        graph_of(v).dom().contains(x) <==> names_a_table(v, x),
    decreases v.len(),
{
    if v.len() > 0 {
        lemma_graph_dom(v.drop_last(), x);
        if names_a_table(v.drop_last(), x) {
            let j = choose|j: int| 0 <= j < v.drop_last().len() && (#[trigger] v.drop_last()[j]).name@ == x;
            assert(v[j] == v.drop_last()[j]);
        }
        if names_a_table(v, x) && v.last().name@ != x {
            let j = choose|j: int| 0 <= j < v.len() && (#[trigger] v[j]).name@ == x;
            assert(v.drop_last()[j] == v[j]);
        }
        if v.last().name@ == x {
            assert(v[v.len() - 1].name@ == x);
        }
    }
}

proof fn lemma_graph_entry(v: Seq<CreateTable>, i: int)
    requires
        unique_names(v),
        0 <= i < v.len(),
    ensures
        graph_of(v)[v[i].name@] == dependencies(v[i]),
    decreases v.len(),
{
    if i < v.len() - 1 {
        assert(unique_names(v.drop_last())) by {
            assert forall|a: int, b: int| 0 <= a < b < v.drop_last().len() implies (#[trigger] v.drop_last()[a]).name@ != (#[trigger] v.drop_last()[b]).name@ by {
                assert(v.drop_last()[a] == v[a] && v.drop_last()[b] == v[b]);
            }
        }
        lemma_graph_entry(v.drop_last(), i);
        assert(v.drop_last()[i] == v[i]);
        assert(v[i].name@ != v[v.len() - 1].name@);
    }
}

fn dependency_names(cols: &Vec<Column>) -> (r: Vec<String>)
    ensures
        Seq::new(r@.len(), |i: int| r@[i]@) == fk_targets(cols@),
{
    let mut r: Vec<String> = Vec::new();
    let mut i: usize = 0;
    assert(cols@.take(0) =~= Seq::<Column>::empty());
    while i < cols.len()
        invariant
            i <= cols.len(),
            Seq::new(r@.len(), |k: int| r@[k]@) == fk_targets(cols@.take(i as int)),
        decreases cols.len() - i,
    {
        proof { assert(cols@.take(i as int + 1).drop_last() =~= cols@.take(i as int)); }
        let ghost r0 = r@;
        if let Some(Constraint::ForeignKey(fk)) = &cols[i].constraint {
            r.push(fk.table.clone());
            assert(Seq::new(r@.len(), |k: int| r@[k]@) =~= Seq::new(r0.len(), |k: int| r0[k]@).push(fk.table@));
        }
        i += 1;
    }
    proof { assert(cols@.take(i as int) =~= cols@); }
    r
}

fn find_slot(slots: &Vec<Option<CreateTable>>, name: &String) -> (r: Option<usize>)
    ensures
        r matches Some(j) ==> j < slots@.len() && slots@[j as int] is Some && slots@[j as int]->0.name@ == name@,
        r is None ==> forall|j: int| 0 <= j < slots@.len() && (#[trigger] slots@[j]) is Some ==> slots@[j]->0.name@ != name@,
{
    let mut j: usize = 0;
    while j < slots.len()
        invariant
            j <= slots.len(),
            forall|q: int| 0 <= q < j && (#[trigger] slots@[q]) is Some ==> slots@[q]->0.name@ != name@,
        decreases slots.len() - j,
    {
        if let Some(c) = &slots[j] {
            if str_eq(c.name.as_str(), name.as_str()) {
                return Some(j);
            }
        }
        j += 1;
    }
    None
}

/// Orders new tables so that each comes after the tables it refers to, as far as
/// references do not form a cycle; the tables that cannot be ordered follow, in
/// the order they were given in.
pub(crate) fn order_creates(creates: Vec<CreateTable>) -> (out: Vec<CreateTable>)
    ensures
        out@.len() == creates@.len(),
        exists|p: Seq<int>|
            is_permutation(p, creates@.len() as int) && forall|m: int|
                0 <= m < out@.len() ==> #[trigger] out@[m] == creates@[p[m]],
        unique_names(creates@) ==> exists|k: int| dependency_ordered(out@, k),
{
    let ghost orig = creates@;
    let n = creates.len();
    let mut sorter = topo_new();
    let mut i: usize = 0;
    assert(topo_graph(sorter) =~= graph_of(orig.take(0)));
    while i < n
        invariant
            n == orig.len(),
            creates@ == orig,
            i <= n,
            topo_graph(sorter) == graph_of(orig.take(i as int)),
        decreases n - i,
    {
        let deps = dependency_names(&creates[i].columns);
        topo_insert(&mut sorter, creates[i].name.clone(), deps);
        proof {
            assert(orig.take(i as int + 1).drop_last() =~= orig.take(i as int));
            assert(orig.take(i as int + 1).last() == orig[i as int]);
        }
        i += 1;
    }
    proof { assert(orig.take(n as int) =~= orig); }
    let ghost g = topo_graph(sorter);
    let order = topo_order(sorter);
    let mut slots: Vec<Option<CreateTable>> = Vec::new();
    let mut rest = creates;
    let mut i: usize = 0;
    while i < n
        invariant
            n == orig.len(),
            i <= n,
            rest@ == orig.subrange(i as int, n as int),
            slots@.len() == i,
            forall|j: int| 0 <= j < i ==> #[trigger] slots@[j] == Some(orig[j]),
        decreases n - i,
    {
        let c = rest.remove(0);
        proof {
            assert(c == orig[i as int]);
            assert(rest@ =~= orig.subrange(i as int + 1, n as int));
        }
        slots.push(Some(c));
        i += 1;
    }
    let mut out: Vec<CreateTable> = Vec::new();
    let ghost mut perm: Seq<int> = Seq::empty();
    let mut p: usize = 0;
    while p < order.len()
        invariant
            n == orig.len(),
            g == graph_of(orig),
            forall|q: int| 0 <= q < order@.len() ==> g.dom().contains((#[trigger] order@[q])@),
            forall|a: int, b: int| 0 <= a < b < order@.len() ==> (#[trigger] order@[a])@ != (#[trigger] order@[b])@,
            forall|q: int, d: Seq<char>|
                0 <= q < order@.len() && #[trigger] g[order@[q]@].contains(d) && g.dom().contains(d)
                    && d != order@[q]@ ==> exists|j: int| 0 <= j < q && (#[trigger] order@[j])@ == d,
            forall|key: Seq<char>|
                #[trigger] g.dom().contains(key) && (forall|q: int| 0 <= q < order@.len() ==> order@[q]@ != key) ==> exists|d: Seq<char>|
                    #[trigger] g[key].contains(d) && g.dom().contains(d) && d != key && forall|q: int|
                        0 <= q < order@.len() ==> order@[q]@ != d,
            p <= order@.len(),
            slots@.len() == n,
            out@.len() == perm.len(),
            forall|m: int| 0 <= m < perm.len() ==> 0 <= #[trigger] perm[m] < n && out@[m] == orig[perm[m]],
            forall|a: int, b: int| 0 <= a < b < perm.len() ==> #[trigger] perm[a] != #[trigger] perm[b],
            forall|j: int| 0 <= j < n ==> ((#[trigger] slots@[j]) is None <==> exists|m: int| 0 <= m < perm.len() && perm[m] == j),
            forall|j: int| 0 <= j < n && (#[trigger] slots@[j]) is Some ==> slots@[j]->0 == orig[j],
            unique_names(orig) ==> perm.len() == p && forall|m: int| 0 <= m < p ==> (#[trigger] out@[m]).name@ == order@[m]@,
        decreases order@.len() - p,
    {
        let found = find_slot(&slots, &order[p]);
        proof {
            if unique_names(orig) {
                assert(g.dom().contains(order@[p as int]@));
                lemma_graph_dom(orig, order@[p as int]@);
                let i0 = choose|j: int| 0 <= j < orig.len() && (#[trigger] orig[j]).name@ == order@[p as int]@;
                if slots@[i0] is None {
                    let m = choose|m: int| 0 <= m < perm.len() && perm[m] == i0;
                    assert(out@[m].name@ == order@[m]@);
                    assert(order@[m]@ != order@[p as int]@);
                }
                assert(slots@[i0] is Some);
                assert(found is Some);
            }
        }
        match found {
            Some(j) => {
                let ghost s0 = slots@;
                let item = slots[j].take();
                proof {
                    assert(slots@ == s0.update(j as int, None::<CreateTable>));
                }
                let c = item.unwrap();
                proof {
                    assert(c == orig[j as int]);
                    if unique_names(orig) {
                        assert forall|m: int| 0 <= m < perm.len() implies perm[m] != j as int by {
                            if perm[m] == j as int {
                                assert(s0[j as int] is None);
                            }
                        }
                    }
                    assert forall|m: int| 0 <= m < perm.len() implies perm[m] != j as int by {
                        if perm[m] == j as int {
                            assert(s0[j as int] is None);
                        }
                    }
                }
                out.push(c);
                proof {
                    let p0 = perm;
                    perm = perm.push(j as int);
                    assert forall|q: int| 0 <= q < n implies ((#[trigger] slots@[q]) is None <==> exists|m: int| 0 <= m < perm.len() && perm[m] == q) by {
                        if q == j as int {
                            assert(perm[perm.len() - 1] == q);
                        } else {
                            assert(slots@[q] == s0[q]);
                            if exists|m: int| 0 <= m < perm.len() && perm[m] == q {
                                let m = choose|m: int| 0 <= m < perm.len() && perm[m] == q;
                                assert(m < perm.len() - 1);
                                assert(p0[m] == q);
                            }
                            if exists|m: int| 0 <= m < p0.len() && p0[m] == q {
                                let m = choose|m: int| 0 <= m < p0.len() && p0[m] == q;
                                assert(perm[m] == q);
                            }
                        }
                    }
                }
            },
            None => {},
        }
        p += 1;
    }
    let ghost k = out@.len() as int;
    let ghost head = out@;
    let ghost perm_k = perm;
    assert(out@.subrange(0, k) =~= head);
    assert(perm.subrange(0, k) =~= perm_k);
    let mut i: usize = 0;
    while i < n
        invariant
            n == orig.len(),
            g == graph_of(orig),
            forall|q: int| 0 <= q < order@.len() ==> g.dom().contains((#[trigger] order@[q])@),
            forall|a: int, b: int| 0 <= a < b < order@.len() ==> (#[trigger] order@[a])@ != (#[trigger] order@[b])@,
            forall|q: int, d: Seq<char>|
                0 <= q < order@.len() && #[trigger] g[order@[q]@].contains(d) && g.dom().contains(d)
                    && d != order@[q]@ ==> exists|j: int| 0 <= j < q && (#[trigger] order@[j])@ == d,
            forall|key: Seq<char>|
                #[trigger] g.dom().contains(key) && (forall|q: int| 0 <= q < order@.len() ==> order@[q]@ != key) ==> exists|d: Seq<char>|
                    #[trigger] g[key].contains(d) && g.dom().contains(d) && d != key && forall|q: int|
                        0 <= q < order@.len() ==> order@[q]@ != d,
            unique_names(orig) ==> k == order@.len() && forall|m: int| 0 <= m < k ==> (#[trigger] head[m]).name@ == order@[m]@,
            i <= n,
            slots@.len() == n,
            0 <= k <= out@.len(),
            k <= perm.len(),
            out@.subrange(0, k) == head,
            perm.subrange(0, k) == perm_k,
            out@.len() == perm.len(),
            forall|m: int| 0 <= m < perm.len() ==> 0 <= #[trigger] perm[m] < n && out@[m] == orig[perm[m]],
            forall|a: int, b: int| 0 <= a < b < perm.len() ==> #[trigger] perm[a] != #[trigger] perm[b],
            forall|j: int| 0 <= j < n ==> ((#[trigger] slots@[j]) is None <==> exists|m: int| 0 <= m < perm.len() && perm[m] == j),
            forall|j: int| 0 <= j < n && (#[trigger] slots@[j]) is Some ==> slots@[j]->0 == orig[j],
            forall|j: int| 0 <= j < i ==> (#[trigger] slots@[j]) is None,
        decreases n - i,
    {
        if slots[i].is_some() {
            let ghost s0 = slots@;
            let item = slots[i].take();
            let c = item.unwrap();
            proof {
                assert(slots@ == s0.update(i as int, None::<CreateTable>));
                assert forall|m: int| 0 <= m < perm.len() implies perm[m] != i as int by {
                    if perm[m] == i as int {
                        assert(s0[i as int] is None);
                    }
                }
            }
            let ghost o0 = out@;
            out.push(c);
            proof {
                let p0 = perm;
                perm = perm.push(i as int);
                assert(out@.subrange(0, k) =~= o0.subrange(0, k));
                assert(perm.subrange(0, k) =~= p0.subrange(0, k));
                assert forall|q: int| 0 <= q < n implies ((#[trigger] slots@[q]) is None <==> exists|m: int| 0 <= m < perm.len() && perm[m] == q) by {
                    if q == i as int {
                        assert(perm[perm.len() - 1] == q);
                    } else {
                        assert(slots@[q] == s0[q]);
                        if exists|m: int| 0 <= m < perm.len() && perm[m] == q {
                            let m = choose|m: int| 0 <= m < perm.len() && perm[m] == q;
                            assert(m < perm.len() - 1);
                            assert(p0[m] == q);
                        }
                        if exists|m: int| 0 <= m < p0.len() && p0[m] == q {
                            let m = choose|m: int| 0 <= m < p0.len() && p0[m] == q;
                            assert(perm[m] == q);
                        }
                    }
                }
            }
        }
        i += 1;
    }
    proof {
        assert(perm.no_duplicates()) by {
            assert forall|a: int, b: int| 0 <= a < perm.len() && 0 <= b < perm.len() && a != b implies perm[a] != perm[b] by {
                if a < b {
                    assert(perm[a] != perm[b]);
                } else {
                    assert(perm[b] != perm[a]);
                }
            }
        }
        perm.unique_seq_to_set();
        assert forall|x: int| perm.to_set().contains(x) <==> vstd::set_lib::set_int_range(0, n as int).contains(x) by {
            if 0 <= x < n {
                assert(slots@[x] is None);
                let m = choose|m: int| 0 <= m < perm.len() && perm[m] == x;
                assert(perm.contains(x));
            }
            if perm.contains(x) {
                let m = choose|m: int| 0 <= m < perm.len() && perm[m] == x;
                assert(0 <= perm[m] < n);
            }
        }
        assert(perm.to_set() =~= vstd::set_lib::set_int_range(0, n as int));
        vstd::set_lib::lemma_int_range(0, n as int);
        assert(perm.len() == n);
        assert forall|j: int| 0 <= j < n implies #[trigger] perm.contains(j) by {
            assert(vstd::set_lib::set_int_range(0, n as int).contains(j));
            assert(perm.to_set().contains(j));
        }
        assert(is_permutation(perm, n as int));
        if unique_names(orig) {
            assert forall|m: int| 0 <= m < k implies (#[trigger] out@[m]).name@ == order@[m]@ by {
                assert(out@[m] == out@.subrange(0, k)[m]);
            }
            lemma_dependency_ordered(orig, order@, g, perm, out@, k);
        }
    }
    out
}

/// What the sorter's guarantees give for the order of new tables built from them.
proof fn lemma_dependency_ordered(
    orig: Seq<CreateTable>,
    order: Seq<String>,
    g: Map<Seq<char>, Set<Seq<char>>>,
    perm: Seq<int>,
    out: Seq<CreateTable>,
    k: int,
)
    requires
        unique_names(orig),
        g == graph_of(orig),
        is_permutation(perm, orig.len() as int),
        out.len() == orig.len(),
        forall|m: int| 0 <= m < out.len() ==> #[trigger] out[m] == orig[perm[m]],
        k == order.len(),
        k <= out.len(),
        forall|m: int| 0 <= m < k ==> (#[trigger] out[m]).name@ == order[m]@,
        forall|i: int| 0 <= i < order.len() ==> g.dom().contains((#[trigger] order[i])@),
        forall|i: int, d: Seq<char>|
            0 <= i < order.len() && #[trigger] g[order[i]@].contains(d) && g.dom().contains(d)
                && d != order[i]@ ==> exists|j: int| 0 <= j < i && (#[trigger] order[j])@ == d,
        forall|key: Seq<char>|
            #[trigger] g.dom().contains(key) && (forall|i: int| 0 <= i < order.len() ==> order[i]@ != key) ==> exists|d: Seq<char>|
                #[trigger] g[key].contains(d) && g.dom().contains(d) && d != key && forall|i: int|
                    0 <= i < order.len() ==> order[i]@ != d,
    ensures
        dependency_ordered(out, k),
{
    let n = orig.len() as int;
    assert forall|d: Seq<char>| names_a_table(out, d) <==> g.dom().contains(d) by {
        lemma_graph_dom(orig, d);
        if names_a_table(out, d) {
            let j = choose|j: int| 0 <= j < out.len() && (#[trigger] out[j]).name@ == d;
            assert(orig[perm[j]].name@ == d);
        }
        if names_a_table(orig, d) {
            let i0 = choose|j: int| 0 <= j < orig.len() && (#[trigger] orig[j]).name@ == d;
            assert(perm.contains(i0));
            let m = choose|m: int| 0 <= m < perm.len() && perm[m] == i0;
            assert(out[m].name@ == d);
        }
    }
    assert forall|m: int| 0 <= m < out.len() implies dependencies(#[trigger] out[m]) == g[out[m].name@] by {
        lemma_graph_entry(orig, perm[m]);
    }
    assert forall|m: int, d: Seq<char>|
        0 <= m < k && #[trigger] dependencies(out[m]).contains(d) && names_a_table(out, d) && d != out[m].name@
            implies exists|j: int| 0 <= j < m && (#[trigger] out[j]).name@ == d by {
        assert(dependencies(out[m]) == g[order[m]@]);
        assert(g[order[m]@].contains(d));
        let j = choose|j: int| 0 <= j < m && (#[trigger] order[j])@ == d;
        assert(out[j].name@ == d);
    }
    assert forall|m: int| k <= m < out.len() implies #[trigger] waits_on_later(out, k, out[m]) by {
        let key = out[m].name@;
        assert(names_a_table(out, key));
        assert forall|i: int| 0 <= i < order.len() implies order[i]@ != key by {
            if order[i]@ == key {
                assert(out[i].name@ == key);
                assert(orig[perm[i]].name@ == orig[perm[m]].name@);
                if perm[i] < perm[m] {
                    assert(orig[perm[i]].name@ != orig[perm[m]].name@);
                } else if perm[m] < perm[i] {
                    assert(orig[perm[m]].name@ != orig[perm[i]].name@);
                }
                assert(perm[i] != perm[m]);
            }
        }
        let d = choose|d: Seq<char>|
            #[trigger] g[key].contains(d) && g.dom().contains(d) && d != key && forall|i: int|
                0 <= i < order.len() ==> order[i]@ != d;
        assert(dependencies(out[m]).contains(d));
        assert(names_a_table(out, d));
        assert forall|j: int| 0 <= j < k implies (#[trigger] out[j]).name@ != d by {
            assert(order[j]@ != d);
        }
    }
}

} // verus!
