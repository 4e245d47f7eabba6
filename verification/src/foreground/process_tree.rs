//! The parent/child structure of the process list: the foreground app's
//! process group, and the process trees that are ended children first.
use vstd::prelude::*;

use crate::foreground::process_list::{contains_id, ProcessInfo};

verus! {

/// Strictly increasing ids (a `BTreeSet<u32>` kept as a vector).
pub open spec fn strictly_increasing(v: Seq<u32>) -> bool {
    forall|i: int, j: int| 0 <= i < j < v.len() ==> v[i] < v[j]
}

/// Every process whose parent is in `s` is in `s` too.
pub open spec fn closed_under_children(s: Set<u32>, ps: Seq<ProcessInfo>) -> bool {
    forall|i: int|
        0 <= i < ps.len() && (#[trigger] ps[i]).parent_id is Some && s.contains(ps[i].parent_id->0)
            ==> s.contains(ps[i].id)
}

/// The smallest set that holds `roots` and is closed under children: the
/// roots and all their descendants.
pub open spec fn is_descendant_closure(g: Set<u32>, roots: Set<u32>, ps: Seq<ProcessInfo>) -> bool {
    &&& roots.subset_of(g)
    &&& closed_under_children(g, ps)
    &&& forall|s: Set<u32>| roots.subset_of(s) && closed_under_children(s, ps) ==> #[trigger] g.subset_of(s)
}

/// How many entries of `ps` have an id outside `s`.
pub open spec fn outside_count(ps: Seq<ProcessInfo>, s: Set<u32>) -> nat
    decreases ps.len(),
{
    if ps.len() == 0 {
        0
    } else {
        outside_count(ps.drop_last(), s) + if s.contains(ps.last().id) {
            0nat
        } else {
            1nat
        }
    }
}

pub proof fn lemma_outside_count_shrinks(ps: Seq<ProcessInfo>, s: Set<u32>, t: Set<u32>, j: int)
    requires
        s.subset_of(t),
        0 <= j < ps.len() ==> !s.contains(ps[j].id) && t.contains(ps[j].id),
    ensures
        outside_count(ps, t) <= outside_count(ps, s),
        0 <= j < ps.len() ==> outside_count(ps, t) < outside_count(ps, s),
    decreases ps.len(),
{
    if ps.len() > 0 {
        let k = if j < ps.len() - 1 {
            j
        } else {
            -1
        };
        lemma_outside_count_shrinks(ps.drop_last(), s, t, k);
        if 0 <= j < ps.len() - 1 {
            assert(ps.drop_last()[j] == ps[j]);
        }
    }
}

/// Adds `x` to a strictly increasing vector; whether it was not there yet.
pub fn insert_sorted_id(v: &mut Vec<u32>, x: u32) -> (inserted: bool)
    requires
        strictly_increasing(old(v)@),
    ensures
        strictly_increasing(final(v)@),
        final(v)@.to_set() == old(v)@.to_set().insert(x),
        inserted == !old(v)@.contains(x),
{
    let mut pos: usize = 0;
    while pos < v.len() && v[pos] < x
        invariant
            pos <= v@.len(),
            forall|j: int| 0 <= j < pos ==> v@[j] < x,
        decreases v@.len() - pos,
    {
        pos = pos + 1;
    }
    if pos < v.len() && v[pos] == x {
        assert(v@.contains(x));
        assert(v@.to_set() =~= v@.to_set().insert(x));
        return false;
    }
    let ghost before = v@;
    assert(!before.contains(x)) by {
        if before.contains(x) {
            let k = choose|k: int| 0 <= k < before.len() && before[k] == x;
            if k >= pos {
                assert(before[pos as int] <= before[k]);
            }
        }
    }
    v.insert(pos, x);
    assert(v@ == before.insert(pos as int, x));
    assert forall|a: int, b: int| 0 <= a < b < v@.len() implies v@[a] < v@[b] by {
        if b < pos {
        } else if b == pos {
        } else if a < pos {
            assert(v@[b] == before[b - 1]);
            assert(before[pos as int] >= x);
        } else if a == pos {
            assert(v@[b] == before[b - 1]);
            assert(before[pos as int] >= x);
            assert(before[pos as int] != x);
        } else {
            assert(v@[a] == before[a - 1] && v@[b] == before[b - 1]);
        }
    }
    assert forall|y: u32| #[trigger] v@.contains(y) <==> before.contains(y) || y == x by {
        if v@.contains(y) {
            let k = choose|k: int| 0 <= k < v@.len() && v@[k] == y;
            if k < pos {
                assert(before[k] == y);
            } else if k > pos {
                assert(before[k - 1] == y);
            }
        }
        if before.contains(y) {
            let k = choose|k: int| 0 <= k < before.len() && before[k] == y;
            if k < pos {
                assert(v@[k] == y);
            } else {
                assert(v@[k + 1] == y);
            }
        }
        if y == x {
            assert(v@[pos as int] == x);
        }
    }
    assert(v@.to_set() =~= before.to_set().insert(x));
    true
}

/// The foreground process and all its descendants, in increasing id order;
/// empty when the foreground process is unknown.
pub fn foreground_process_group_ids(processes: &Vec<ProcessInfo>, foreground_process_id: Option<u32>) -> (r:
    Vec<u32>)
    ensures
        strictly_increasing(r@),
        foreground_process_id is None ==> r@.len() == 0,
        foreground_process_id matches Some(f) ==> is_descendant_closure(
            r@.to_set(),
            set![f],
            processes@,
        ),
{
    let f = match foreground_process_id {
        Some(f) => f,
        None => {
            return Vec::new();
        },
    };
    let ghost ps = processes@;
    let mut group: Vec<u32> = Vec::new();
    group.push(f);
    assert forall|x: u32| #[trigger] group@.to_set().contains(x) <==> set![f].contains(x) by {
        assert(group@[0] == f);
    }
    assert(group@.to_set() =~= set![f]);
    let mut changed = true;
    while changed
        invariant
            ps == processes@,
            strictly_increasing(group@),
            set![f].subset_of(group@.to_set()),
            forall|s: Set<u32>|
                set![f].subset_of(s) && closed_under_children(s, ps) ==> #[trigger] group@.to_set().subset_of(s),
            !changed ==> closed_under_children(group@.to_set(), ps),
        decreases outside_count(ps, group@.to_set()), if changed {
            1int
        } else {
            0int
        },
    {
        let ghost start = group@.to_set();
        changed = false;
        let mut i: usize = 0;
        while i < processes.len()
            invariant
                ps == processes@,
                i <= ps.len(),
                strictly_increasing(group@),
                start.subset_of(group@.to_set()),
                set![f].subset_of(group@.to_set()),
                forall|s: Set<u32>|
                    set![f].subset_of(s) && closed_under_children(s, ps) ==> #[trigger] group@.to_set().subset_of(s),
                changed ==> outside_count(ps, group@.to_set()) < outside_count(ps, start),
                !changed ==> group@.to_set() == start,
                forall|j: int|
                    0 <= j < i && (#[trigger] ps[j]).parent_id is Some && start.contains(ps[j].parent_id->0)
                        ==> group@.to_set().contains(ps[j].id),
            decreases ps.len() - i,
        {
            let p = &processes[i];
            let parent_in_group = match p.parent_id {
                Some(q) => contains_id(&group, q),
                None => false,
            };
            if parent_in_group {
                let ghost before = group@.to_set();
                let inserted = insert_sorted_id(&mut group, p.id);
                proof {
                    assert forall|s: Set<u32>|
                        set![f].subset_of(s) && closed_under_children(s, ps) implies #[trigger] group@.to_set().subset_of(s) by {
                        assert(before.subset_of(s));
                        assert(s.contains(ps[i as int].parent_id->0));
                    }
                    if inserted {
                        assert(!before.contains(ps[i as int].id));
                        lemma_outside_count_shrinks(ps, before, group@.to_set(), i as int);
                        lemma_outside_count_shrinks(ps, start, before, -1);
                    } else {
                        assert(before.contains(ps[i as int].id));
                        assert(group@.to_set() =~= before);
                    }
                }
                if inserted {
                    changed = true;
                }
            }
            i = i + 1;
        }
        proof {
            if changed {
                lemma_outside_count_shrinks(ps, start, group@.to_set(), -1);
            }
        }
    }
    group
}

/// Everything in `sel` lies in every set that holds `roots` and is closed
/// under children.
pub open spec fn within_closures(sel: Set<u32>, roots: Set<u32>, ps: Seq<ProcessInfo>) -> bool {
    forall|s: Set<u32>| roots.subset_of(s) && closed_under_children(s, ps) ==> #[trigger] sel.subset_of(s)
}

/// Every finished process has all its children selected.
pub open spec fn finished_have_children(ord: Seq<u32>, sel: Set<u32>, ps: Seq<ProcessInfo>) -> bool {
    forall|i: int|
        0 <= i < ps.len() && (#[trigger] ps[i]).parent_id is Some && ord.contains(ps[i].parent_id->0)
            ==> sel.contains(ps[i].id)
}

/// The walk's state: what is selected, what is finished (in order), and
/// which selected processes are still open.
pub open spec fn walk_state(
    sel: Seq<u32>,
    ord: Seq<u32>,
    roots: Set<u32>,
    ps: Seq<ProcessInfo>,
) -> bool {
    &&& strictly_increasing(sel)
    &&& ord.no_duplicates()
    &&& ord.to_set().subset_of(sel.to_set())
    &&& finished_have_children(ord, sel.to_set(), ps)
    &&& within_closures(sel.to_set(), roots, ps)
    &&& parent_links_acyclic(ps) ==> children_first(ord, ps)
}

/// The selected processes that are not finished yet.
pub open spec fn open_ids(sel: Seq<u32>, ord: Seq<u32>) -> Set<u32> {
    sel.to_set().difference(ord.to_set())
}

/// `d` gives every listed child a greater depth than its parent.
pub open spec fn depth_ok(d: spec_fn(u32) -> nat, ps: Seq<ProcessInfo>) -> bool {
    forall|i: int|
        0 <= i < ps.len() && (#[trigger] ps[i]).parent_id is Some ==> d(ps[i].id) > d(ps[i].parent_id->0)
}

/// Following parent links never comes back to a process: some depth grows
/// from every parent to its children.
pub open spec fn parent_links_acyclic(ps: Seq<ProcessInfo>) -> bool {
    exists|d: spec_fn(u32) -> nat| depth_ok(d, ps)
}

/// A depth that shows the parent links acyclic, when there is one.
pub open spec fn depth_of(ps: Seq<ProcessInfo>) -> spec_fn(u32) -> nat {
    choose|d: spec_fn(u32) -> nat| depth_ok(d, ps)
}

/// `x` comes before `y` in `s`.
pub open spec fn listed_before(s: Seq<u32>, x: u32, y: u32) -> bool {
    exists|a: int, b: int| 0 <= a < b < s.len() && s[a] == x && s[b] == y
}

/// Every listed child of a process in `ord` comes before it in `ord`.
pub open spec fn children_first(ord: Seq<u32>, ps: Seq<ProcessInfo>) -> bool {
    forall|i: int|
        0 <= i < ps.len() && (#[trigger] ps[i]).parent_id is Some && ord.contains(ps[i].parent_id->0)
            ==> listed_before(ord, ps[i].id, ps[i].parent_id->0)
}

/// `x` is in every set that holds `roots` and is closed under children:
/// it is one of the roots or a descendant of one.
pub open spec fn reached_from(x: u32, roots: Set<u32>, ps: Seq<ProcessInfo>) -> bool {
    forall|s: Set<u32>| roots.subset_of(s) && closed_under_children(s, ps) ==> #[trigger] s.contains(x)
}

proof fn lemma_listed_before_extends(s: Seq<u32>, t: Seq<u32>, x: u32, y: u32)
    requires
        s.is_prefix_of(t),
        listed_before(s, x, y),
    ensures
        listed_before(t, x, y),
{
    let (a, b) = choose|a: int, b: int| 0 <= a < b < s.len() && s[a] == x && s[b] == y;
    assert(t[a] == x && t[b] == y);
}

proof fn lemma_children_first_extends(s: Seq<u32>, t: Seq<u32>, ps: Seq<ProcessInfo>)
    requires
        s.is_prefix_of(t),
        children_first(s, ps),
    ensures
        forall|i: int|
            0 <= i < ps.len() && (#[trigger] ps[i]).parent_id is Some && s.contains(ps[i].parent_id->0)
                ==> listed_before(t, ps[i].id, ps[i].parent_id->0),
{
    assert forall|i: int|
        0 <= i < ps.len() && (#[trigger] ps[i]).parent_id is Some && s.contains(ps[i].parent_id->0)
            implies listed_before(t, ps[i].id, ps[i].parent_id->0) by {
        lemma_listed_before_extends(s, t, ps[i].id, ps[i].parent_id->0);
    }
}

/// 0 when `id` is selected, 1 when it is listed in `ps`, else 2.
pub open spec fn visit_rank(id: u32, sel: Seq<u32>, ps: Seq<ProcessInfo>) -> int {
    if sel.contains(id) {
        0
    } else if exists|k: int| 0 <= k < ps.len() && ps[k].id == id {
        1
    } else {
        2
    }
}

/// Some listed process has this id.
pub open spec fn listed(ps: Seq<ProcessInfo>, id: u32) -> bool {
    exists|k: int| 0 <= k < ps.len() && ps[k].id == id
}

/// How many entries of `ids` lie outside `s`.
pub open spec fn ids_outside(ids: Seq<u32>, s: Set<u32>) -> nat
    decreases ids.len(),
{
    if ids.len() == 0 {
        0
    } else {
        ids_outside(ids.drop_last(), s) + if s.contains(ids.last()) {
            0nat
        } else {
            1nat
        }
    }
}

pub proof fn lemma_ids_outside_shrinks(ids: Seq<u32>, s: Set<u32>, t: Set<u32>, j: int)
    requires
        s.subset_of(t),
        0 <= j < ids.len() ==> !s.contains(ids[j]) && t.contains(ids[j]),
    ensures
        ids_outside(ids, t) <= ids_outside(ids, s),
        0 <= j < ids.len() ==> ids_outside(ids, t) < ids_outside(ids, s),
    decreases ids.len(),
{
    if ids.len() > 0 {
        let k = if j < ids.len() - 1 {
            j
        } else {
            -1
        };
        lemma_ids_outside_shrinks(ids.drop_last(), s, t, k);
        if 0 <= j < ids.len() - 1 {
            assert(ids.drop_last()[j] == ids[j]);
        }
    }
}

/// The children of `id` as unexpanded walk entries, in list order.
pub open spec fn children_of(ps: Seq<ProcessInfo>, id: u32) -> Seq<(u32, bool)>
    decreases ps.len(),
{
    if ps.len() == 0 {
        Seq::empty()
    } else {
        let c = children_of(ps.drop_last(), id);
        if ps.last().parent_id == Some(id) {
            c.push((ps.last().id, false))
        } else {
            c
        }
    }
}

/// The walk that ends process trees: a stack of entries `(id, expanded)`,
/// taken from its end. An expanded entry finishes its process; a new one
/// (a root or a listed child) is selected, put back expanded, and its
/// children pushed in list order (so the last listed child is walked
/// first); an entry already selected is dropped.
pub open spec fn tree_walk_from(
    stack: Seq<(u32, bool)>,
    sel: Set<u32>,
    ord: Seq<u32>,
    roots: Seq<u32>,
    ps: Seq<ProcessInfo>,
) -> Seq<u32>
    decreases outside_count(ps, sel) + ids_outside(roots, sel), stack.len(),
{
    if stack.len() == 0 {
        ord
    } else {
        let id = stack.last().0;
        let rest = stack.drop_last();
        if stack.last().1 {
            tree_walk_from(rest, sel, ord.push(id), roots, ps)
        } else if sel.contains(id) || !(roots.contains(id) || listed(ps, id)) {
            tree_walk_from(rest, sel, ord, roots, ps)
        } else {
            proof {
                let t = sel.insert(id);
                if listed(ps, id) {
                    let k = choose|k: int| 0 <= k < ps.len() && ps[k].id == id;
                    lemma_outside_count_shrinks(ps, sel, t, k);
                    lemma_ids_outside_shrinks(roots, sel, t, -1);
                } else {
                    let j = choose|j: int| 0 <= j < roots.len() && roots[j] == id;
                    lemma_ids_outside_shrinks(roots, sel, t, j);
                    lemma_outside_count_shrinks(ps, sel, t, -1);
                }
            }
            tree_walk_from(rest.push((id, true)) + children_of(ps, id), sel.insert(id), ord, roots, ps)
        }
    }
}

/// The roots as the walk's starting stack: the first root on top.
pub open spec fn root_stack(roots: Seq<u32>) -> Seq<(u32, bool)> {
    Seq::new(roots.len(), |k: int| (roots[roots.len() - 1 - k], false))
}

/// The order in which the trees of `roots` are ended.
pub open spec fn tree_walk(roots: Seq<u32>, ps: Seq<ProcessInfo>) -> Seq<u32> {
    tree_walk_from(root_stack(roots), Set::empty(), Seq::empty(), roots, ps)
}

/// Selects `id` if it is new, visits its children (last listed first), then
/// finishes it.
fn visit_tree(
    id: u32,
    processes: &Vec<ProcessInfo>,
    selected: &mut Vec<u32>,
    ordered: &mut Vec<u32>,
    Ghost(roots): Ghost<Set<u32>>,
    Ghost(entry): Ghost<Seq<u32>>,
    Ghost(root_seq): Ghost<Seq<u32>>,
    Ghost(rest): Ghost<Seq<(u32, bool)>>,
)
    requires
        entry == old(selected)@,
        root_seq.contains(id) || listed(processes@, id),
        walk_state(old(selected)@, old(ordered)@, roots, processes@),
        forall|s: Set<u32>| roots.subset_of(s) && closed_under_children(s, processes@) ==> #[trigger] s.contains(id),
        parent_links_acyclic(processes@) ==> forall|x: u32|
            #[trigger] open_ids(old(selected)@, old(ordered)@).contains(x) ==> depth_of(processes@)(x) < depth_of(
                processes@,
            )(id),
    ensures
        walk_state(final(selected)@, final(ordered)@, roots, processes@),
        tree_walk_from(rest.push((id, false)), old(selected)@.to_set(), old(ordered)@, root_seq, processes@)
            == tree_walk_from(rest, final(selected)@.to_set(), final(ordered)@, root_seq, processes@),
        !old(selected)@.contains(id) ==> final(ordered)@.len() > 0 && final(ordered)@.last() == id,
        final(selected)@.contains(id),
        old(selected)@.to_set().subset_of(final(selected)@.to_set()),
        old(ordered)@.is_prefix_of(final(ordered)@),
        open_ids(final(selected)@, final(ordered)@) == open_ids(old(selected)@, old(ordered)@),
    decreases outside_count(processes@, entry.to_set()), visit_rank(id, entry, processes@),
{
    let ghost ps = processes@;
    let ghost sel0 = selected@;
    let ghost ord0 = ordered@;
    if !insert_sorted_id(selected, id) {
        assert(selected@.to_set().contains(id));
        assert(selected@.to_set() =~= sel0.to_set());
        assert(ordered@.is_prefix_of(ordered@));
        assert(rest.push((id, false)).drop_last() =~= rest);
        return;
    }
    let ghost sel1 = selected@;
    proof {
        assert(sel1.to_set() == sel0.to_set().insert(id));
        assert(!ord0.to_set().contains(id));
        assert forall|s: Set<u32>| roots.subset_of(s) && closed_under_children(s, ps) implies #[trigger] sel1.to_set().subset_of(s) by {
            assert(sel0.to_set().subset_of(s));
        }
        if exists|k: int| 0 <= k < ps.len() && ps[k].id == id {
            let k = choose|k: int| 0 <= k < ps.len() && ps[k].id == id;
            lemma_outside_count_shrinks(ps, sel0.to_set(), sel1.to_set(), k);
        } else {
            lemma_outside_count_shrinks(ps, sel0.to_set(), sel1.to_set(), -1);
        }
        assert(ord0.is_prefix_of(ord0));
        assert(!ord0.contains(id)) by {
            if ord0.contains(id) {
                assert(ord0.to_set().contains(id));
            }
        }
        assert(rest.push((id, false)).drop_last() =~= rest);
        assert(!sel0.to_set().contains(id));
        assert(ps.subrange(0, ps.len() as int) =~= ps);
    }
    let mut i: usize = processes.len();
    while i > 0
        invariant
            ps == processes@,
            entry == sel0,
            i <= ps.len(),
            walk_state(selected@, ordered@, roots, ps),
            forall|s: Set<u32>| roots.subset_of(s) && closed_under_children(s, ps) ==> #[trigger] s.contains(id),
            sel1.to_set() == sel0.to_set().insert(id),
            !sel0.contains(id),
            sel1.to_set().subset_of(selected@.to_set()),
            ord0.is_prefix_of(ordered@),
            open_ids(selected@, ordered@) == open_ids(sel1, ord0),
            outside_count(ps, sel1.to_set()) <= outside_count(ps, sel0.to_set()),
            (exists|k: int| 0 <= k < ps.len() && ps[k].id == id) ==> outside_count(ps, sel1.to_set())
                < outside_count(ps, sel0.to_set()),
            forall|j: int|
                i <= j < ps.len() && (#[trigger] ps[j]).parent_id == Some(id) ==> selected@.contains(ps[j].id),
            parent_links_acyclic(ps) ==> forall|x: u32|
                #[trigger] open_ids(sel0, ord0).contains(x) ==> depth_of(ps)(x) < depth_of(ps)(id),
            !ord0.contains(id),
            tree_walk_from(rest.push((id, false)), sel0.to_set(), ord0, root_seq, ps) == tree_walk_from(
                rest.push((id, true)) + children_of(ps.subrange(0, i as int), id),
                selected@.to_set(),
                ordered@,
                root_seq,
                ps,
            ),
        decreases i,
    {
        i = i - 1;
        proof {
            let next = ps.subrange(0, i + 1);
            assert(next.drop_last() =~= ps.subrange(0, i as int));
            assert(next.last() == ps[i as int]);
        }
        let is_child = match processes[i].parent_id {
            Some(q) => q == id,
            None => false,
        };
        if is_child {
            let child = processes[i].id;
            proof {
                lemma_outside_count_shrinks(ps, sel1.to_set(), selected@.to_set(), -1);
                assert forall|s: Set<u32>| roots.subset_of(s) && closed_under_children(s, ps) implies #[trigger] s.contains(child) by {
                    assert(s.contains(id));
                    assert(ps[i as int].parent_id->0 == id);
                }
                assert(visit_rank(child, selected@, ps) <= 1) by {
                    if !selected@.contains(child) {
                        assert(ps[i as int].id == child);
                    }
                }
                if exists|k: int| 0 <= k < ps.len() && ps[k].id == id {
                    assert(outside_count(ps, selected@.to_set()) < outside_count(ps, sel0.to_set()));
                } else {
                    assert(visit_rank(id, sel0, ps) == 2);
                }
                if parent_links_acyclic(ps) {
                    let d = depth_of(ps);
                    assert(depth_ok(d, ps));
                    assert(d(ps[i as int].id) > d(id));
                    assert forall|x: u32| #[trigger] open_ids(selected@, ordered@).contains(x) implies d(x) < d(child) by {
                        assert(open_ids(sel1, ord0).contains(x));
                        if x != id {
                            assert(open_ids(sel0, ord0).contains(x));
                        }
                    }
                }
            }
            let ghost sel_before = selected@;
            let ghost ord_before = ordered@;
            let ghost below = rest.push((id, true)) + children_of(ps.subrange(0, i as int), id);
            proof {
                assert(rest.push((id, true)) + children_of(ps.subrange(0, i + 1), id) =~= below.push((child, false)));
            }
            visit_tree(child, processes, selected, ordered, Ghost(roots), Ghost(sel_before), Ghost(root_seq), Ghost(below));
            proof {
                assert forall|j: int|
                    i <= j < ps.len() && (#[trigger] ps[j]).parent_id == Some(id) implies selected@.contains(ps[j].id) by {
                    if j > i {
                        assert(sel_before.to_set().contains(ps[j].id));
                    }
                }
                assert(ord0.is_prefix_of(ordered@)) by {
                    assert forall|t: int| 0 <= t < ord0.len() implies ordered@[t] == ord0[t] by {
                        assert(ord_before[t] == ord0[t]);
                    }
                }
            }
        }
    }
    proof {
        assert(open_ids(selected@, ordered@).contains(id)) by {
            assert(sel1.to_set().contains(id));
        }
    }
    let ghost sel2 = selected@;
    let ghost ord2 = ordered@;
    proof {
        assert(ps.subrange(0, 0) =~= Seq::<ProcessInfo>::empty());
        assert(rest.push((id, true)) + children_of(ps.subrange(0, 0), id) =~= rest.push((id, true)));
        assert(rest.push((id, true)).drop_last() =~= rest);
    }
    ordered.push(id);
    proof {
        assert(!ord2.contains(id)) by {
            assert(!ord2.to_set().contains(id));
        }
        assert forall|x: u32| #[trigger] ordered@.contains(x) <==> ord2.contains(x) || x == id by {
            if ordered@.contains(x) {
                let t = choose|t: int| 0 <= t < ordered@.len() && ordered@[t] == x;
                if t < ord2.len() {
                    assert(ord2[t] == x);
                }
            }
            if ord2.contains(x) {
                let t = choose|t: int| 0 <= t < ord2.len() && ord2[t] == x;
                assert(ordered@[t] == x);
            }
            if x == id {
                assert(ordered@[ord2.len() as int] == id);
            }
        }
        assert(ordered@.to_set() =~= ord2.to_set().insert(id));
        assert forall|a: int, b: int| 0 <= a < b < ordered@.len() implies ordered@[a] != ordered@[b] by {
            if b == ordered@.len() - 1 {
                assert(ord2.contains(ordered@[a]) || a == b);
            } else {
                assert(ordered@[a] == ord2[a] && ordered@[b] == ord2[b]);
            }
        }
        assert forall|j: int|
            0 <= j < ps.len() && (#[trigger] ps[j]).parent_id is Some && ordered@.contains(ps[j].parent_id->0)
                implies selected@.to_set().contains(ps[j].id) by {
            let q = ps[j].parent_id->0;
            if q == id {
            } else {
                assert(ordered@.to_set().contains(q));
                assert(ord2.to_set().contains(q));
                assert(ord2.contains(q));
            }
        }
        if parent_links_acyclic(ps) {
            let d = depth_of(ps);
            assert(depth_ok(d, ps));
            lemma_children_first_extends(ord2, ordered@, ps);
            assert forall|j: int|
                0 <= j < ps.len() && (#[trigger] ps[j]).parent_id is Some && ordered@.contains(ps[j].parent_id->0)
                    implies listed_before(ordered@, ps[j].id, ps[j].parent_id->0) by {
                let q = ps[j].parent_id->0;
                let c = ps[j].id;
                if q == id {
                    assert(selected@.contains(c));
                    assert(d(c) > d(id));
                    if !ord2.contains(c) {
                        assert(!ord2.to_set().contains(c));
                        assert(open_ids(sel2, ord2).contains(c));
                        assert(open_ids(sel1, ord0).contains(c));
                        if c != id {
                            assert(open_ids(sel0, ord0).contains(c));
                        }
                        assert(false);
                    }
                    let a = choose|a: int| 0 <= a < ord2.len() && ord2[a] == c;
                    assert(ordered@[a] == c);
                    assert(ordered@[ord2.len() as int] == id);
                } else {
                    assert(ordered@.contains(q));
                    let t = choose|t: int| 0 <= t < ordered@.len() && ordered@[t] == q;
                    if t == ord2.len() {
                        assert(false);
                    }
                    assert(ord2[t] == q);
                    assert(ord2.contains(q));
                }
            }
        }
        assert forall|x: u32| #[trigger] open_ids(selected@, ordered@).contains(x) <==> open_ids(sel0, ord0).contains(x) by {
            assert(open_ids(sel2, ord2).contains(x) == open_ids(sel1, ord0).contains(x));
            if x == id {
                assert(!sel0.to_set().contains(id));
            }
        }
        assert(open_ids(selected@, ordered@) =~= open_ids(sel0, ord0));
        assert(ord0.is_prefix_of(ordered@)) by {
            assert forall|t: int| 0 <= t < ord0.len() implies ordered@[t] == ord0[t] by {
                assert(ord2[t] == ord0[t]);
            }
        }
    }
}

/// The processes to end for `root_ids`, in exactly the order of the walk
/// `tree_walk`: depth first from each root in the given order, the last
/// listed child first, each process after its children. Every root and all
/// its descendants come once; when the parent links have no cycle, every
/// child comes before its parent; a root that no earlier root reaches comes
/// after every earlier root.
pub fn process_tree_ids_postorder(root_ids: &Vec<u32>, processes: &Vec<ProcessInfo>) -> (r: Vec<u32>)
    ensures
        r@.no_duplicates(),
        is_descendant_closure(r@.to_set(), root_ids@.to_set(), processes@),
        r@ == tree_walk(root_ids@, processes@),
        parent_links_acyclic(processes@) ==> children_first(r@, processes@),
        forall|j: int, k: int|
            0 <= j < k < root_ids@.len() && !reached_from(
                #[trigger] root_ids@[k],
                root_ids@.subrange(0, k).to_set(),
                processes@,
            ) ==> listed_before(r@, #[trigger] root_ids@[j], root_ids@[k]),
{
    let ghost ps = processes@;
    let ghost roots = root_ids@.to_set();
    let mut selected: Vec<u32> = Vec::new();
    let mut ordered: Vec<u32> = Vec::new();
    proof {
        assert forall|s: Set<u32>| roots.subset_of(s) && closed_under_children(s, ps) implies #[trigger] selected@.to_set().subset_of(s) by {
        }
        assert(open_ids(selected@, ordered@) =~= Set::<u32>::empty());
    }
    let mut k: usize = 0;
    proof {
        assert(root_ids@.subrange(0, 0).to_set() =~= Set::<u32>::empty());
        assert(root_ids@.subrange(0, root_ids@.len() as int) =~= root_ids@);
        assert(selected@.to_set() =~= Set::<u32>::empty());
        assert(ordered@ =~= Seq::<u32>::empty());
    }
    while k < root_ids.len()
        invariant
            ps == processes@,
            roots == root_ids@.to_set(),
            k <= root_ids@.len(),
            walk_state(selected@, ordered@, root_ids@.subrange(0, k as int).to_set(), ps),
            open_ids(selected@, ordered@) == Set::<u32>::empty(),
            forall|j: int| 0 <= j < k ==> selected@.contains(#[trigger] root_ids@[j]),
            forall|j: int, m: int|
                0 <= j < m < k && !reached_from(#[trigger] root_ids@[m], root_ids@.subrange(0, m).to_set(), ps)
                    ==> listed_before(ordered@, #[trigger] root_ids@[j], root_ids@[m]),
            tree_walk(root_ids@, ps) == tree_walk_from(
                root_stack(root_ids@.subrange(k as int, root_ids@.len() as int)),
                selected@.to_set(),
                ordered@,
                root_ids@,
                ps,
            ),
        decreases root_ids@.len() - k,
    {
        let root = root_ids[k];
        let ghost prefix = root_ids@.subrange(0, k as int).to_set();
        let ghost next = root_ids@.subrange(0, k + 1).to_set();
        proof {
            let sn = root_ids@.subrange(0, k + 1);
            let sp = root_ids@.subrange(0, k as int);
            assert forall|x: u32| next.contains(x) <==> prefix.insert(root).contains(x) by {
                if next.contains(x) {
                    let t = choose|t: int| 0 <= t < sn.len() && sn[t] == x;
                    if t < k {
                        assert(sp[t] == x);
                    }
                }
                if prefix.contains(x) {
                    let t = choose|t: int| 0 <= t < sp.len() && sp[t] == x;
                    assert(sn[t] == x);
                }
                if x == root {
                    assert(sn[k as int] == x);
                }
            }
            assert(next =~= prefix.insert(root));
            assert forall|s: Set<u32>| next.subset_of(s) && closed_under_children(s, ps) implies #[trigger] s.contains(root) by {
                assert(next.contains(root));
            }
            assert forall|s: Set<u32>| next.subset_of(s) && closed_under_children(s, ps) implies #[trigger] selected@.to_set().subset_of(s) by {
                assert(prefix.subset_of(s));
            }
        }
        let ghost sel_before = selected@;
        let ghost ord_before = ordered@;
        let ghost below = root_stack(root_ids@.subrange(k + 1, root_ids@.len() as int));
        proof {
            assert(root_stack(root_ids@.subrange(k as int, root_ids@.len() as int)) =~= below.push((root, false)));
            assert(root_ids@.contains(root_ids@[k as int]));
        }
        visit_tree(root, processes, &mut selected, &mut ordered, Ghost(next), Ghost(sel_before), Ghost(root_ids@), Ghost(below));
        proof {
            assert forall|j: int| 0 <= j < k + 1 implies selected@.contains(#[trigger] root_ids@[j]) by {
                if j < k {
                    assert(sel_before.to_set().contains(root_ids@[j]));
                }
            }
            assert forall|j: int, m: int|
                0 <= j < m < k + 1 && !reached_from(#[trigger] root_ids@[m], root_ids@.subrange(0, m).to_set(), ps)
                    implies listed_before(ordered@, #[trigger] root_ids@[j], root_ids@[m]) by {
                if m < k {
                    lemma_listed_before_extends(ord_before, ordered@, root_ids@[j], root_ids@[m]);
                } else {
                    assert(root_ids@.subrange(0, m) == root_ids@.subrange(0, k as int));
                    if sel_before.contains(root) {
                        assert forall|s: Set<u32>| prefix.subset_of(s) && closed_under_children(s, ps) implies #[trigger] s.contains(root) by {
                            assert(sel_before.to_set().subset_of(s));
                            assert(sel_before.to_set().contains(root));
                        }
                        assert(false);
                    }
                    let rj = root_ids@[j];
                    assert(sel_before.contains(rj));
                    assert(!open_ids(sel_before, ord_before).contains(rj));
                    assert(ord_before.to_set().contains(rj));
                    let a = choose|a: int| 0 <= a < ord_before.len() && ord_before[a] == rj;
                    assert(ordered@[a] == rj);
                    assert(ordered@[ordered@.len() - 1] == root);
                    assert(a < ordered@.len() - 1);
                }
            }
        }
        k = k + 1;
    }
    proof {
        assert(root_stack(root_ids@.subrange(root_ids@.len() as int, root_ids@.len() as int)) =~= Seq::<(u32, bool)>::empty());
        assert(root_ids@.subrange(0, root_ids@.len() as int) =~= root_ids@);
        assert(selected@.to_set() =~= ordered@.to_set()) by {
            assert forall|x: u32| selected@.to_set().contains(x) implies ordered@.to_set().contains(x) by {
                if !ordered@.to_set().contains(x) {
                    assert(open_ids(selected@, ordered@).contains(x));
                }
            }
        }
        assert forall|x: u32| roots.contains(x) implies ordered@.to_set().contains(x) by {
            let j = choose|j: int| 0 <= j < root_ids@.len() && root_ids@[j] == x;
            assert(selected@.contains(root_ids@[j]));
        }
        assert forall|i: int|
            0 <= i < ps.len() && (#[trigger] ps[i]).parent_id is Some && ordered@.to_set().contains(ps[i].parent_id->0)
                implies ordered@.to_set().contains(ps[i].id) by {
            assert(ordered@.contains(ps[i].parent_id->0));
        }
    }
    ordered
}

/// A process to end with its tree: one of the chosen roots, or a child
/// identified by its executable path (to be checked again before it is
/// ended).
#[derive(Debug, Clone, PartialEq, Eq)]
pub enum TreeMember {
    Root(u32),
    Child { process_id: u32, executable_path: String },
}

/// A tree member as plain values: the id, and the path of a child.
pub open spec fn member_view(m: TreeMember) -> (u32, Option<Seq<char>>) {
    match m {
        TreeMember::Root(id) => (id, None),
        TreeMember::Child { process_id, executable_path } => (process_id, Some(executable_path@)),
    }
}

/// The first listed process with this id, if any.
pub open spec fn first_listed(ps: Seq<ProcessInfo>, id: u32) -> Option<int> {
    if exists|k: int| 0 <= k < ps.len() && ps[k].id == id {
        Some(choose|k: int| 0 <= k < ps.len() && ps[k].id == id && forall|m: int| 0 <= m < k ==> ps[m].id != id)
    } else {
        None
    }
}

/// The members for `ids` in order: a root as itself; another id as the
/// first listed process of that id with its path. The first id that is not
/// listed (`A child process exited before it could be stopped.`) or has no
/// path (`A child process could not be identified safely.`) ends it.
pub open spec fn tree_members(ids: Seq<u32>, roots: Seq<u32>, ps: Seq<ProcessInfo>) -> Result<
    Seq<(u32, Option<Seq<char>>)>,
    Seq<char>,
>
    decreases ids.len(),
{
    if ids.len() == 0 {
        Ok(Seq::empty())
    } else {
        match tree_members(ids.drop_last(), roots, ps) {
            Err(e) => Err(e),
            Ok(ms) => {
                let id = ids.last();
                if roots.contains(id) {
                    Ok(ms.push((id, None)))
                } else {
                    match first_listed(ps, id) {
                        None => Err("A child process exited before it could be stopped."@),
                        Some(k) => match ps[k].image_path {
                            None => Err("A child process could not be identified safely."@),
                            Some(path) => Ok(ms.push((id, Some(path@)))),
                        },
                    }
                }
            },
        }
    }
}

fn find_listed(processes: &Vec<ProcessInfo>, id: u32) -> (r: Option<usize>)
    ensures
        r matches Some(k) ==> k < processes@.len() && first_listed(processes@, id) == Some(k as int),
        r is None ==> first_listed(processes@, id) is None,
{
    let mut k: usize = 0;
    while k < processes.len()
        invariant
            k <= processes@.len(),
            forall|m: int| 0 <= m < k ==> processes@[m].id != id,
        decreases processes@.len() - k,
    {
        if processes[k].id == id {
            proof {
                let c = choose|c: int| 0 <= c < processes@.len() && processes@[c].id == id && forall|m: int|
                    0 <= m < c ==> processes@[m].id != id;
                if c < k {
                } else if c > k {
                    assert(processes@[k as int].id == id);
                }
            }
            return Some(k);
        }
        k = k + 1;
    }
    None
}

/// What ending the trees of `root_ids` will act on, in the order given by
/// `ordered_ids` (the tree's post-order, see `process_tree_ids_postorder`):
/// no roots is an error; otherwise each id becomes a member as
/// `tree_members` says, and the first id that cannot be identified ends
/// the plan with its error.
pub fn process_tree_members(root_ids: &Vec<u32>, processes: &Vec<ProcessInfo>, ordered_ids: &Vec<u32>) -> (r:
    Result<Vec<TreeMember>, String>)
    ensures
        root_ids@.len() == 0 ==> (r matches Err(e) && e@ == "No process targets were available."@),
        root_ids@.len() > 0 ==> match tree_members(ordered_ids@, root_ids@, processes@) {
            Ok(ms) => r matches Ok(v) && v@.map_values(|m: TreeMember| member_view(m)) == ms,
            Err(e) => r matches Err(x) && x@ == e,
        },
{
    if root_ids.len() == 0 {
        return Err(String::from_str("No process targets were available."));
    }
    let mut out: Vec<TreeMember> = Vec::new();
    let mut i: usize = 0;
    proof {
        assert(ordered_ids@.subrange(0, 0) =~= Seq::<u32>::empty());
        assert(out@.map_values(|m: TreeMember| member_view(m)) =~= Seq::<(u32, Option<Seq<char>>)>::empty());
    }
    while i < ordered_ids.len()
        invariant
            i <= ordered_ids@.len(),
            root_ids@.len() > 0,
            tree_members(ordered_ids@.subrange(0, i as int), root_ids@, processes@) == Ok::<
                Seq<(u32, Option<Seq<char>>)>,
                Seq<char>,
            >(out@.map_values(|m: TreeMember| member_view(m))),
        decreases ordered_ids@.len() - i,
    {
        let id = ordered_ids[i];
        let ghost before = out@.map_values(|m: TreeMember| member_view(m));
        proof {
            let next = ordered_ids@.subrange(0, i + 1);
            assert(next.drop_last() =~= ordered_ids@.subrange(0, i as int));
            assert(next.last() == id);
        }
        if contains_id(root_ids, id) {
            out.push(TreeMember::Root(id));
            proof {
                assert(out@.map_values(|m: TreeMember| member_view(m)) =~= before.push((id, None)));
            }
        } else {
            match find_listed(processes, id) {
                None => {
                    proof {
                        assert(ordered_ids@.subrange(0, i + 1).is_prefix_of(ordered_ids@));
                        lemma_tree_members_err_stays(ordered_ids@, i as int + 1, root_ids@, processes@);
                    }
                    return Err(String::from_str("A child process exited before it could be stopped."));
                },
                Some(k) => match &processes[k].image_path {
                    None => {
                        proof {
                            lemma_tree_members_err_stays(ordered_ids@, i as int + 1, root_ids@, processes@);
                        }
                        return Err(String::from_str("A child process could not be identified safely."));
                    },
                    Some(path) => {
                        let ghost pv = path@;
                        out.push(TreeMember::Child { process_id: id, executable_path: path.clone() });
                        proof {
                            assert(out@.map_values(|m: TreeMember| member_view(m)) =~= before.push((id, Some(pv))));
                        }
                    },
                },
            }
        }
        i = i + 1;
    }
    proof {
        assert(ordered_ids@.subrange(0, ordered_ids@.len() as int) =~= ordered_ids@);
    }
    Ok(out)
}

/// Once a prefix of the ids ends in an error, the whole list ends in it.
proof fn lemma_tree_members_err_stays(ids: Seq<u32>, n: int, roots: Seq<u32>, ps: Seq<ProcessInfo>)
    requires
        0 <= n <= ids.len(),
        tree_members(ids.subrange(0, n), roots, ps) is Err,
    ensures
        tree_members(ids, roots, ps) == tree_members(ids.subrange(0, n), roots, ps),
    decreases ids.len() - n,
{
    if n < ids.len() {
        let next = ids.subrange(0, n + 1);
        assert(next.drop_last() =~= ids.subrange(0, n));
        lemma_tree_members_err_stays(ids, n + 1, roots, ps);
    } else {
        assert(ids.subrange(0, n) =~= ids);
    }
}

/// The index of the first failed result, if any.
pub fn first_failure(results: &Vec<Result<(), String>>) -> (r: Option<usize>)
    ensures
        match r {
            Some(i) => i < results@.len() && results@[i as int] is Err && forall|k: int|
                0 <= k < i ==> #[trigger] results@[k] is Ok,
            None => forall|k: int| 0 <= k < results@.len() ==> #[trigger] results@[k] is Ok,
        },
{
    let mut i: usize = 0;
    while i < results.len()
        invariant
            i <= results@.len(),
            forall|k: int| 0 <= k < i ==> #[trigger] results@[k] is Ok,
        decreases results@.len() - i,
    {
        if results[i].is_err() {
            return Some(i);
        }
        i = i + 1;
    }
    None
}

/// What to do next while ending process trees whose members are known.
#[derive(Debug, PartialEq, Eq)]
pub enum TreeTerminationStep {
    /// Make the target of the member at this index (a root is its own
    /// target; a child is identified again by its path).
    Capture(usize),
    /// Check that the target at this index may be ended.
    CheckAccess(usize),
    /// End the target at this index.
    Terminate(usize),
    /// Done: how many processes were ended, or the first failure.
    Finish(Result<usize, String>),
}

/// Whether every result succeeded.
pub open spec fn all_succeeded(results: Seq<Result<(), String>>) -> bool {
    forall|k: int| 0 <= k < results.len() ==> #[trigger] results[k] is Ok
}

/// The next step of ending the `count` members of process trees, given the
/// results so far of making their targets, of checking them and of ending
/// them (each in member order). Every target is made, then every one is
/// checked, and only then is any ended: so nothing is ended unless every
/// target was made and passed its check. The first failure of a phase ends
/// it with that failure; when every process was ended, the count is the
/// result.
pub fn tree_termination_step(
    count: usize,
    captures: &Vec<Result<(), String>>,
    checks: &Vec<Result<(), String>>,
    terminations: &Vec<Result<(), String>>,
) -> (r: TreeTerminationStep)
    requires
        captures@.len() <= count,
        checks@.len() <= count,
        terminations@.len() <= count,
        checks@.len() > 0 ==> captures@.len() == count && all_succeeded(captures@),
        terminations@.len() > 0 ==> checks@.len() == count && all_succeeded(checks@),
    ensures
        r matches TreeTerminationStep::Terminate(i) ==> i == terminations@.len() && captures@.len() == count
            && all_succeeded(captures@) && checks@.len() == count && all_succeeded(checks@),
        r matches TreeTerminationStep::CheckAccess(i) ==> i == checks@.len() && captures@.len() == count
            && all_succeeded(captures@) && terminations@.len() == 0,
        r matches TreeTerminationStep::Capture(i) ==> i == captures@.len() && all_succeeded(captures@)
            && checks@.len() == 0,
        forall|i: int|
            0 <= i < captures@.len() && #[trigger] captures@[i] is Err && (forall|k: int|
                0 <= k < i ==> captures@[k] is Ok) ==> (r matches TreeTerminationStep::Finish(Err(e)) && e@
                == captures@[i]->Err_0@),
        all_succeeded(captures@) && captures@.len() < count ==> r == TreeTerminationStep::Capture(captures@.len() as usize),
        forall|i: int|
            0 <= i < checks@.len() && #[trigger] checks@[i] is Err && (forall|k: int| 0 <= k < i ==> checks@[k] is Ok)
                ==> (r matches TreeTerminationStep::Finish(Err(e)) && e@ == checks@[i]->Err_0@),
        captures@.len() == count && all_succeeded(captures@) && all_succeeded(checks@) && checks@.len() < count
            ==> r == TreeTerminationStep::CheckAccess(checks@.len() as usize),
        forall|i: int|
            0 <= i < terminations@.len() && #[trigger] terminations@[i] is Err && (forall|k: int|
                0 <= k < i ==> terminations@[k] is Ok) ==> (r matches TreeTerminationStep::Finish(Err(e)) && e@
                == terminations@[i]->Err_0@),
        checks@.len() == count && all_succeeded(checks@) && all_succeeded(terminations@) && terminations@.len()
            < count ==> r == TreeTerminationStep::Terminate(terminations@.len() as usize),
        captures@.len() == count && checks@.len() == count && terminations@.len() == count && all_succeeded(
            captures@,
        ) && all_succeeded(checks@) && all_succeeded(terminations@) ==> r == TreeTerminationStep::Finish(
            Ok(count),
        ),
{
    match first_failure(captures) {
        Some(i) => {
            return TreeTerminationStep::Finish(Err(failure_text(&captures[i])));
        },
        None => {},
    }
    if captures.len() < count {
        return TreeTerminationStep::Capture(captures.len());
    }
    match first_failure(checks) {
        Some(i) => {
            return TreeTerminationStep::Finish(Err(failure_text(&checks[i])));
        },
        None => {},
    }
    if checks.len() < count {
        return TreeTerminationStep::CheckAccess(checks.len());
    }
    match first_failure(terminations) {
        Some(i) => {
            return TreeTerminationStep::Finish(Err(failure_text(&terminations[i])));
        },
        None => {},
    }
    if terminations.len() < count {
        return TreeTerminationStep::Terminate(terminations.len());
    }
    TreeTerminationStep::Finish(Ok(count))
}

/// The message of a failed result.
fn failure_text(result: &Result<(), String>) -> (r: String)
    requires
        result is Err,
    ensures
        r@ == result->Err_0@,
{
    match result {
        Err(e) => e.clone(),
        Ok(()) => String::new(),
    }
}

} // verus!
