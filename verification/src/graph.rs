//! Flattening `Rc<RefCell<T>>` pointer graphs into nodes and edges, and
//! rebuilding them.
//!
//! Node identity is pointer identity. The walk visits every node reachable
//! from the root once, however many edges lead to it, so shared subtrees are
//! not duplicated and cycles terminate; every edge it records leads to a
//! node it records.

pub mod arc;

use std::cell::RefCell;
use std::rc::Rc;
use std::sync::Mutex;
use vstd::prelude::*;

verus! {

/// A node identifier derived from pointer identity.
#[derive(Debug, Clone, Copy, PartialEq, Eq, Hash, Structural)]
pub struct NodeId(pub usize);

/// An adjacency-list representation of a pointer graph: nodes with their
/// data, directed edges from parent to child, and the root's identifier.
#[derive(Debug, Clone)]
pub struct ReifiedGraph<T> {
    /// The nodes in the graph, each paired with its identifier.
    pub nodes: Vec<(NodeId, T)>,
    /// Directed edges from parent to child.
    pub edges: Vec<(NodeId, NodeId)>,
    /// The root node's identifier.
    pub root: NodeId,
}

/// A shareable mutable cell (`std::cell::RefCell`); its contents are not
/// visible to contracts.
#[verifier::external_type_specification]
#[verifier::external_body]
#[verifier::reject_recursive_types(T)]
pub struct ExRefCell<T: ?Sized>(RefCell<T>);

/// `RefCell::new` wraps a value in a fresh cell; nothing is stated of it.
pub assume_specification<T>[ RefCell::<T>::new ](value: T) -> RefCell<T>;

/// A mutual-exclusion lock (`std::sync::Mutex`); its contents are not
/// visible to contracts.
#[verifier::external_type_specification]
#[verifier::external_body]
#[verifier::reject_recursive_types(T)]
pub struct ExMutex<T: ?Sized>(Mutex<T>);

/// `Mutex::new` wraps a value in an unlocked mutex; nothing is stated of it.
pub assume_specification<T>[ Mutex::<T>::new ](value: T) -> Mutex<T>;

/// `Rc::clone`: another handle to the same allocation.
#[verifier::external_body]
fn rc_clone<T>(rc: &Rc<T>) -> (r: Rc<T>)
    ensures
        r == *rc,
{
    Rc::clone(rc)
}

/// Applies `f` to the contents of the cell (`RefCell::try_borrow`), or
/// gives `None` when the cell is mutably borrowed at the time. What the
/// contents are is not stated: a result is some result `f` may give.
#[verifier::external_body]
fn read_cell<T, R, F: Fn(&T) -> R>(cell: &Rc<RefCell<T>>, f: &F) -> (r: Option<R>)
    requires
        forall|t: &T| #[trigger] f.requires((t,)),
    ensures
        r matches Some(v) ==> exists|t: &T| #[trigger] f.ensures((t,), v),
{
    match cell.try_borrow() {
        Ok(contents) => Some(f(&contents)),
        Err(_) => None,
    }
}

/// Applies `f` to the contents of the cell, mutably, with `arg`
/// (`RefCell::try_borrow_mut`), and gives `true`: `f` was then called with
/// `arg`, so its `ensures` holds of some contents and `arg`. Gives `false`,
/// without calling `f`, when the cell is borrowed at the time. Nothing is
/// stated of the contents.
#[verifier::external_body]
fn write_cell<T, A, F: Fn(&mut T, A)>(cell: &Rc<RefCell<T>>, f: &F, arg: A) -> (r: bool)
    requires
        forall|t: &mut T, a: A| #[trigger] f.requires((t, a)),
    ensures
        r ==> exists|t: &mut T| #[trigger] f.ensures((t, arg), ()),
{
    match cell.try_borrow_mut() {
        Ok(mut contents) => {
            f(&mut contents, arg);
            true
        },
        Err(_) => false,
    }
}

/// A shared handle to a mutable graph node.
trait Handle<T>: Sized {
    /// The node's identifier.
    fn node_id(&self) -> NodeId;

    /// Another handle to the same node.
    fn share(&self) -> (r: Self)
        ensures
            r == *self,
    ;

    /// Applies `f` to the node's data, or gives `None` when the data is in
    /// use elsewhere.
    fn read<R, F: Fn(&T) -> R>(&self, f: &F) -> (r: Option<R>)
        requires
            forall|t: &T| #[trigger] f.requires((t,)),
        ensures
            r matches Some(v) ==> exists|t: &T| #[trigger] f.ensures((t,), v),
    ;

    /// Applies `f` to the node's data, mutably, with `arg`; `false` when the
    /// data is in use elsewhere. On `true`, `f` was called with `arg`.
    fn write<A, F: Fn(&mut T, A)>(&self, f: &F, arg: A) -> (r: bool)
        requires
            forall|t: &mut T, a: A| #[trigger] f.requires((t, a)),
        ensures
            r ==> exists|t: &mut T| #[trigger] f.ensures((t, arg), ()),
    ;

    /// A fresh node holding `data`.
    fn make(data: T) -> Self;
}

impl<T> Handle<T> for Rc<RefCell<T>> {
    fn node_id(&self) -> NodeId {
        node_id_of(self)
    }

    fn share(&self) -> (r: Self) {
        rc_clone(self)
    }

    fn read<R, F: Fn(&T) -> R>(&self, f: &F) -> (r: Option<R>) {
        read_cell(self, f)
    }

    fn write<A, F: Fn(&mut T, A)>(&self, f: &F, arg: A) -> bool {
        write_cell(self, f, arg)
    }

    fn make(data: T) -> Self {
        Rc::new(RefCell::new(data))
    }
}

/// Clone of a value: a result `T::clone` may give for it.
fn clone_of<T: Clone>(t: &T) -> (r: T)
    ensures
        cloned(*t, r),
{
    t.clone()
}

/// The identifier of an `Rc<RefCell<T>>`: the address of its allocation
/// (`Rc::as_ptr`). Addresses depend on the allocator, so nothing is stated
/// of the result; handles to one allocation get one identifier.
#[verifier::external_body]
pub fn node_id_of<T>(rc: &Rc<RefCell<T>>) -> NodeId {
    NodeId(Rc::as_ptr(rc) as usize)
}

/// The identifiers of a node table, in order.
pub open spec fn ids_of<P>(t: Seq<(NodeId, P)>) -> Seq<NodeId> {
    t.map_values(|e: (NodeId, P)| e.0)
}

/// No identifier occurs twice.
pub open spec fn ids_distinct(ids: Seq<NodeId>) -> bool {
    forall|i: int, j: int| 0 <= i < j < ids.len() ==> ids[i] != ids[j]
}

/// Whether `id` is the identifier of some node.
pub open spec fn has_node<T>(g: ReifiedGraph<T>, id: NodeId) -> bool {
    exists|i: int| 0 <= i < g.nodes@.len() && #[trigger] g.nodes@[i].0 == id
}

/// The edges `(ids[i], k)` for each child `k` of each node `i`, grouped by
/// node in node order and in child order within a node.
pub open spec fn edges_of(ids: Seq<NodeId>, kids: Seq<Seq<NodeId>>) -> Seq<(NodeId, NodeId)>
    decreases kids.len(),
{
    if kids.len() == 0 {
        Seq::empty()
    } else {
        let n = (kids.len() - 1) as int;
        edges_of(ids, kids.take(n)) + kids[n].map_values(|k: NodeId| (ids[n], k))
    }
}

/// The shape of a flattened graph: at least one node, the root first, no
/// identifier twice, edges grouped by source in node order, and every edge
/// between nodes of the graph.
pub open spec fn reified<T>(g: ReifiedGraph<T>) -> bool {
    &&& g.nodes@.len() >= 1
    &&& g.root == g.nodes@[0].0
    &&& ids_distinct(ids_of(g.nodes@))
    &&& exists|kids: Seq<Seq<NodeId>>|
        kids.len() == g.nodes@.len() && g.edges@ == edges_of(ids_of(g.nodes@), kids)
    &&& forall|m: int|
        0 <= m < g.edges@.len() ==> has_node(g, (#[trigger] g.edges@[m]).0) && has_node(
            g,
            g.edges@[m].1,
        )
}

/// A row of a walk: a visited node's identifier and the identifiers of its
/// children, in the order they were read.
pub type WalkRow = (NodeId, Vec<NodeId>);

/// The identifiers of the rows, in order.
pub open spec fn row_ids(t: Seq<WalkRow>) -> Seq<NodeId> {
    t.map_values(|r: WalkRow| r.0)
}

/// The children of the rows, in order.
pub open spec fn row_kids(t: Seq<WalkRow>) -> Seq<Seq<NodeId>> {
    t.map_values(|r: WalkRow| r.1@)
}

/// Some row has identifier `id`.
pub open spec fn has_row(t: Seq<WalkRow>, id: NodeId) -> bool {
    exists|i: int| 0 <= i < t.len() && #[trigger] t[i].0 == id
}

/// The identifier at position `i` is a child of an identifier listed
/// before it.
pub open spec fn child_of_earlier(ids: Seq<NodeId>, kids: Seq<Seq<NodeId>>, i: int) -> bool {
    exists|j: int, k: int| 0 <= j < i && 0 <= k < kids[j].len() && #[trigger] kids[j][k] == ids[i]
}

/// Every identifier in `ids` after the first is a child of an identifier
/// listed before it: every node is reached from the first.
pub open spec fn reached_in_order(ids: Seq<NodeId>, kids: Seq<Seq<NodeId>>) -> bool {
    forall|i: int| 1 <= i < ids.len() ==> #[trigger] child_of_earlier(ids, kids, i)
}

/// Every child identifier is the identifier of some row.
pub open spec fn kids_closed(ids: Seq<NodeId>, kids: Seq<Seq<NodeId>>) -> bool {
    forall|j: int, k: int|
        0 <= j < kids.len() && 0 <= k < kids[j].len() ==> ids.contains(#[trigger] kids[j][k])
}

/// The shape of a finished walk: at least one row, no identifier twice,
/// every child a row, every row after the first reached from an earlier
/// one.
pub open spec fn walked(t: Seq<WalkRow>) -> bool {
    &&& t.len() >= 1
    &&& ids_distinct(row_ids(t))
    &&& kids_closed(row_ids(t), row_kids(t))
    &&& reached_in_order(row_ids(t), row_kids(t))
}

/// Some call of `children` can return a list of `n` handles.
pub open spec fn may_list<T, H, F: Fn(&T) -> Vec<H>>(children: F, n: nat) -> bool {
    exists|t: &T, hs: Vec<H>| #[trigger] children.ensures((t,), hs) && hs@.len() == n
}

spec fn stack_has(s: Seq<NodeId>, id: NodeId) -> bool {
    exists|i: int| 0 <= i < s.len() && #[trigger] s[i] == id
}

fn rows_contain(t: &Vec<WalkRow>, id: NodeId) -> (r: bool)
    ensures
        r == has_row(t@, id),
{
    let mut i: usize = 0;
    while i < t.len()
        invariant
            i <= t@.len(),
            forall|j: int| 0 <= j < i ==> t@[j].0 != id,
        decreases t@.len() - i,
    {
        if t[i].0 == id {
            return true;
        }
        i = i + 1;
    }
    false
}

/// One step of the depth-first walk, on identifiers: when `id` is not yet a
/// row, the row `(id, kids)` is appended and the children are pushed onto
/// the stack last first, so that they are visited in order; when it is,
/// nothing changes.
pub fn walk_step(table: &mut Vec<WalkRow>, stack: &mut Vec<NodeId>, id: NodeId, kids: Vec<NodeId>)
    ensures
        has_row(old(table)@, id) ==> final(table)@ == old(table)@ && final(stack)@ == old(stack)@,
        !has_row(old(table)@, id) ==> {
            &&& final(table)@.len() == old(table)@.len() + 1
            &&& final(table)@.drop_last() == old(table)@
            &&& final(table)@.last().0 == id
            &&& final(table)@.last().1@ == kids@
            &&& final(stack)@ == old(stack)@ + kids@.reverse()
        },
{
    if rows_contain(table, id) {
        return;
    }
    let ghost kv = kids@;
    let n = kids.len();
    let mut j: usize = n;
    while j > 0
        invariant
            j <= n,
            n == kv.len(),
            kv == kids@,
            stack@ == old(stack)@ + kv.subrange(j as int, n as int).reverse(),
        decreases j,
    {
        j = j - 1;
        stack.push(kids[j]);
        assert(stack@ =~= old(stack)@ + kv.subrange(j as int, n as int).reverse());
    }
    assert(kv.subrange(0, n as int) =~= kv);
    table.push((id, kids));
    assert(table@.drop_last() =~= old(table)@);
}

/// The identifiers of the nodes `nodes`, in order.
fn ids_of_handles<T, H: Handle<T>>(nodes: &Vec<H>) -> (r: Vec<NodeId>)
    ensures
        r@.len() == nodes@.len(),
{
    let mut out: Vec<NodeId> = Vec::new();
    let mut k: usize = 0;
    while k < nodes.len()
        invariant
            k <= nodes@.len(),
            out@.len() == k,
        decreases nodes@.len() - k,
    {
        out.push(nodes[k].node_id());
        k = k + 1;
    }
    out
}

/// Pushes handles to `nodes` onto `stack`, last first.
fn push_reversed<T, H: Handle<T>>(stack: &mut Vec<H>, nodes: &Vec<H>)
    ensures
        final(stack)@ == old(stack)@ + nodes@.reverse(),
{
    let n = nodes.len();
    let mut j: usize = n;
    while j > 0
        invariant
            j <= n,
            n == nodes@.len(),
            stack@ == old(stack)@ + nodes@.subrange(j as int, n as int).reverse(),
        decreases j,
    {
        j = j - 1;
        stack.push(nodes[j].share());
        assert(stack@ =~= old(stack)@ + nodes@.subrange(j as int, n as int).reverse());
    }
    assert(nodes@.subrange(0, n as int) =~= nodes@);
}

/// Visits every node reachable from `root` once, depth first with children
/// in the order `children` gives them (`walk_step` on their identifiers):
/// the rows and, for each row, its node's handle, the root's first; `None`
/// when a node's data is in use elsewhere.
fn walk<T, H: Handle<T>, F: Fn(&T) -> Vec<H>>(root: &H, children: &F) -> (r: Option<
    (Vec<WalkRow>, Vec<H>),
>)
    requires
        forall|x: &T| #[trigger] children.requires((x,)),
    ensures
        r matches Some(p) ==> (walked(p.0@) && p.1@.len() == p.0@.len() && p.1@[0] == *root
            && forall|j: int|
            0 <= j < p.0@.len() ==> #[trigger] may_list(*children, p.0@[j].1@.len())),
{
    let root_id = root.node_id();
    let mut table: Vec<WalkRow> = Vec::new();
    let mut handles: Vec<H> = Vec::new();
    let mut stack: Vec<NodeId> = Vec::new();
    let mut stack_h: Vec<H> = Vec::new();
    stack.push(root_id);
    stack_h.push(root.share());
    while stack.len() > 0
        invariant
            forall|x: &T| #[trigger] children.requires((x,)),
            stack_h@.len() == stack@.len(),
            handles@.len() == table@.len(),
            table@.len() == 0 ==> stack@ == seq![root_id] && stack_h@[0] == *root,
            table@.len() > 0 ==> handles@[0] == *root && table@[0].0 == root_id,
            ids_distinct(row_ids(table@)),
            forall|j: int, k: int|
                0 <= j < table@.len() && 0 <= k < table@[j].1@.len() ==> has_row(
                    table@,
                    #[trigger] table@[j].1@[k],
                ) || stack_has(stack@, table@[j].1@[k]),
            forall|s: int|
                0 <= s < stack@.len() ==> #[trigger] stack@[s] == root_id || exists|j: int, k: int|
                    0 <= j < table@.len() && 0 <= k < table@[j].1@.len() && #[trigger] table@[j].1@[k]
                        == stack@[s],
            reached_in_order(row_ids(table@), row_kids(table@)),
            forall|j: int| 0 <= j < table@.len() ==> #[trigger] may_list(*children, table@[j].1@.len()),
        decreases usize::MAX - table@.len(), stack@.len(),
    {
        let ghost prev_table = table@;
        let ghost prev_stack = stack@;
        let ghost prev_stack_h = stack_h@;
        let id = stack.pop().unwrap();
        let node = stack_h.pop().unwrap();
        assert(id == prev_stack.last());
        if !rows_contain(&table, id) {
            let kid_handles = match node.read(children) {
                Some(k) => k,
                None => {
                    return None;
                },
            };
            let kid_ids = ids_of_handles(&kid_handles);
            let ghost kv = kid_ids@;
            let ghost popped = stack@;
            assert(may_list(*children, kv.len()));
            walk_step(&mut table, &mut stack, id, kid_ids);
            handles.push(node);
            push_reversed(&mut stack_h, &kid_handles);
            assert(table.len() <= usize::MAX);
            proof {
                let n = prev_table.len() as int;
                assert(row_ids(table@) =~= row_ids(prev_table).push(id));
                assert(row_kids(table@) =~= row_kids(prev_table).push(kv));
                assert forall|a: int, b: int|
                    0 <= a < b < row_ids(table@).len() implies row_ids(table@)[a] != row_ids(
                    table@,
                )[b] by {
                    if b == n {
                        assert(prev_table[a].0 == row_ids(table@)[a]);
                    }
                }
                // every child is a row or on the stack
                assert forall|j: int, k: int|
                    0 <= j < table@.len() && 0 <= k < table@[j].1@.len() implies has_row(
                    table@,
                    #[trigger] table@[j].1@[k],
                ) || stack_has(stack@, table@[j].1@[k]) by {
                    let c = table@[j].1@[k];
                    if j < n {
                        assert(table@[j] == prev_table[j]);
                        if has_row(prev_table, c) {
                            let w = choose|w: int| 0 <= w < prev_table.len() && #[trigger] prev_table[w].0 == c;
                            assert(table@[w] == prev_table[w]);
                        } else if c == id {
                            assert(table@[n].0 == id);
                        } else {
                            let w = choose|w: int| 0 <= w < prev_stack.len() && #[trigger] prev_stack[w] == c;
                            assert(w < prev_stack.len() - 1);
                            assert(stack@[w] == prev_stack[w]);
                        }
                    } else {
                        let p = popped.len() + (kv.len() - 1 - k);
                        assert(stack@[p] == kv[k]);
                    }
                }
                // every stack entry is the root or a child of a row
                assert forall|s: int| 0 <= s < stack@.len() implies #[trigger] stack@[s] == root_id
                    || exists|j: int, k: int|
                    0 <= j < table@.len() && 0 <= k < table@[j].1@.len() && #[trigger] table@[j].1@[k]
                        == stack@[s] by {
                    if s < popped.len() {
                        assert(stack@[s] == prev_stack[s]);
                        if stack@[s] != root_id {
                            let (j, k) = choose|j: int, k: int|
                                0 <= j < prev_table.len() && 0 <= k < prev_table[j].1@.len()
                                    && #[trigger] prev_table[j].1@[k] == prev_stack[s];
                            assert(table@[j] == prev_table[j]);
                        }
                    } else {
                        let k = kv.len() - 1 - (s - popped.len());
                        assert(stack@[s] == kv[k]);
                        assert(table@[n].1@[k] == stack@[s]);
                    }
                }
                // every row after the first is reached from an earlier one
                let ids2 = row_ids(table@);
                let kids2 = row_kids(table@);
                assert forall|i: int| 1 <= i < ids2.len() implies #[trigger] child_of_earlier(
                    ids2,
                    kids2,
                    i,
                ) by {
                    if i < n {
                        assert(child_of_earlier(row_ids(prev_table), row_kids(prev_table), i));
                        let (j, k) = choose|j: int, k: int|
                            0 <= j < i && 0 <= k < row_kids(prev_table)[j].len() && #[trigger] row_kids(
                                prev_table,
                            )[j][k] == row_ids(prev_table)[i];
                        assert(kids2[j] == row_kids(prev_table)[j]);
                        assert(ids2[i] == row_ids(prev_table)[i]);
                        assert(kids2[j][k] == ids2[i]);
                    } else {
                        if id == root_id {
                            assert(row_ids(prev_table)[0] == root_id);
                            assert(prev_table[0].0 == root_id);
                            assert(false);
                        }
                        let s = prev_stack.len() - 1;
                        assert(prev_stack[s] == id);
                        let (j, k) = choose|j: int, k: int|
                            0 <= j < prev_table.len() && 0 <= k < prev_table[j].1@.len()
                                && #[trigger] prev_table[j].1@[k] == prev_stack[s];
                        assert(table@[j] == prev_table[j]);
                        assert(kids2[j] == prev_table[j].1@);
                        assert(ids2[i] == id);
                        assert(kids2[j][k] == ids2[i]);
                    }
                }
                assert(reached_in_order(ids2, kids2));
                assert forall|j: int| 0 <= j < table@.len() implies #[trigger] may_list(
                    *children,
                    table@[j].1@.len(),
                ) by {
                    if j < n {
                        assert(table@[j] == prev_table[j]);
                    } else {
                        assert(table@[j].1@ == kv);
                    }
                }
                if n == 0 {
                    assert(prev_stack == seq![root_id]);
                    assert(node == prev_stack_h[0]);
                }
                assert(handles@[0] == *root);
            }
        } else {
            proof {
                assert forall|j: int, k: int|
                    0 <= j < table@.len() && 0 <= k < table@[j].1@.len() implies has_row(
                    table@,
                    #[trigger] table@[j].1@[k],
                ) || stack_has(stack@, table@[j].1@[k]) by {
                    let c = table@[j].1@[k];
                    if !has_row(table@, c) {
                        let w = choose|w: int| 0 <= w < prev_stack.len() && #[trigger] prev_stack[w] == c;
                        assert(w < prev_stack.len() - 1);
                        assert(stack@[w] == prev_stack[w]);
                    }
                }
                assert forall|s: int| 0 <= s < stack@.len() implies #[trigger] stack@[s] == root_id
                    || exists|j: int, k: int|
                    0 <= j < table@.len() && 0 <= k < table@[j].1@.len() && #[trigger] table@[j].1@[k]
                        == stack@[s] by {
                    assert(stack@[s] == prev_stack[s]);
                }
            }
        }
    }
    proof {
        assert forall|j: int, k: int|
            0 <= j < row_kids(table@).len() && 0 <= k < row_kids(table@)[j].len() implies row_ids(
            table@,
        ).contains(#[trigger] row_kids(table@)[j][k]) by {
            assert(row_kids(table@)[j][k] == table@[j].1@[k]);
            let w = choose|w: int| 0 <= w < table@.len() && #[trigger] table@[w].0 == table@[j].1@[k];
            assert(row_ids(table@)[w] == table@[w].0);
        }
    }
    Some((table, handles))
}

/// The node identifiers and the edges of a finished walk: the rows'
/// identifiers in order, and for each row in order, one edge to each of its
/// children in order.
pub fn flatten(rows: &Vec<WalkRow>) -> (r: (Vec<NodeId>, Vec<(NodeId, NodeId)>))
    ensures
        r.0@ == row_ids(rows@),
        r.1@ == edges_of(row_ids(rows@), row_kids(rows@)),
{
    let ghost ids = row_ids(rows@);
    let ghost kids = row_kids(rows@);
    let mut out_ids: Vec<NodeId> = Vec::new();
    let mut edges: Vec<(NodeId, NodeId)> = Vec::new();
    let mut i: usize = 0;
    while i < rows.len()
        invariant
            i <= rows@.len(),
            ids == row_ids(rows@),
            kids == row_kids(rows@),
            out_ids@ == ids.take(i as int),
            edges@ == edges_of(ids, kids.take(i as int)),
        decreases rows@.len() - i,
    {
        let id = rows[i].0;
        out_ids.push(id);
        let ghost before = edges@;
        let mut k: usize = 0;
        while k < rows[i].1.len()
            invariant
                i < rows@.len(),
                k <= rows@[i as int].1@.len(),
                id == rows@[i as int].0,
                edges@ == before + rows@[i as int].1@.take(k as int).map_values(|c: NodeId| (id, c)),
            decreases rows@[i as int].1@.len() - k,
        {
            let c = rows[i].1[k];
            edges.push((id, c));
            assert(rows@[i as int].1@.take(k + 1).map_values(|c: NodeId| (id, c)) =~= rows@[i as int].1@.take(
                k as int,
            ).map_values(|c: NodeId| (id, c)).push((id, c)));
            k = k + 1;
        }
        proof {
            assert(rows@[i as int].1@.take(rows@[i as int].1@.len() as int) =~= rows@[i as int].1@);
            assert(kids.take(i + 1).take(i as int) =~= kids.take(i as int));
            assert(kids.take(i + 1)[i as int] == kids[i as int]);
            assert(ids[i as int] == id);
            assert(out_ids@ =~= ids.take(i + 1));
        }
        i = i + 1;
    }
    assert(kids.take(rows@.len() as int) =~= kids);
    assert(ids.take(rows@.len() as int) =~= ids);
    (out_ids, edges)
}

/// The edge at position `m` of `edges_of(ids, kids)` is `(ids[j], kids[j][k])`
/// for the node `j` and child `k` returned.
proof fn lemma_edge_at(ids: Seq<NodeId>, kids: Seq<Seq<NodeId>>, m: int) -> (jk: (int, int))
    requires
        0 <= m < edges_of(ids, kids).len(),
    ensures
        0 <= jk.0 < kids.len(),
        0 <= jk.1 < kids[jk.0].len(),
        edges_of(ids, kids)[m] == (ids[jk.0], kids[jk.0][jk.1]),
    decreases kids.len(),
{
    let n = (kids.len() - 1) as int;
    let pre = kids.take(n);
    let pe = edges_of(ids, pre);
    let tail = kids[n].map_values(|k: NodeId| (ids[n], k));
    assert(edges_of(ids, kids) == pe + tail);
    if m < pe.len() {
        let jk = lemma_edge_at(ids, pre, m);
        assert(pre[jk.0] == kids[jk.0]);
        jk
    } else {
        let k = m - pe.len();
        assert(tail[k] == (ids[n], kids[n][k]));
        (n, k)
    }
}

/// Node `i` of `g` is the target of an edge from a node listed before it.
pub open spec fn linked_from_earlier<T>(g: ReifiedGraph<T>, i: int) -> bool {
    exists|j: int|
        0 <= j < i && #[trigger] targets_of(g.edges@, g.nodes@[j].0).contains(g.nodes@[i].0)
}

/// Every node after the root is the target of an edge from a node listed
/// before it: every node is reached from the root.
pub open spec fn rooted<T>(g: ReifiedGraph<T>) -> bool {
    forall|i: int| 1 <= i < g.nodes@.len() ==> #[trigger] linked_from_earlier(g, i)
}

/// Collect every node reachable from `root`, each once, paired with its
/// identifier, in the order of the walk: the root first, no identifier
/// twice, and, for the children identifiers the walk read, every child a
/// listed node and every node after the root a child of an earlier one;
/// `None` when a node's data is in use elsewhere.
fn collect_with<T, H: Handle<T>, F: Fn(&T) -> Vec<H>>(root: &H, children: &F) -> (r: Option<
    Vec<(NodeId, H)>,
>)
    requires
        forall|x: &T| #[trigger] children.requires((x,)),
    ensures
        r matches Some(v) ==> (v@.len() >= 1 && v@[0].1 == *root && ids_distinct(ids_of(v@))
            && exists|kids: Seq<Seq<NodeId>>|
            kids.len() == v@.len() && kids_closed(ids_of(v@), kids) && reached_in_order(
                ids_of(v@),
                kids,
            ) && forall|j: int| 0 <= j < kids.len() ==> #[trigger] may_list(*children, kids[j].len())),
{
    let (table, handles) = match walk(root, children) {
        Some(p) => p,
        None => {
            return None;
        },
    };
    let mut out: Vec<(NodeId, H)> = Vec::new();
    let mut i: usize = 0;
    while i < table.len()
        invariant
            i <= table@.len(),
            handles@.len() == table@.len(),
            out@.len() == i,
            forall|j: int| 0 <= j < i ==> #[trigger] out@[j] == (table@[j].0, handles@[j]),
        decreases table@.len() - i,
    {
        out.push((table[i].0, handles[i].share()));
        i = i + 1;
    }
    assert(ids_of(out@) =~= row_ids(table@));
    assert(row_kids(table@).len() == out@.len());
    assert forall|j: int| 0 <= j < row_kids(table@).len() implies #[trigger] may_list(
        *children,
        row_kids(table@)[j].len(),
    ) by {
        assert(row_kids(table@)[j] == table@[j].1@);
    }
    Some(out)
}

/// Flatten the graph reachable from `root` into nodes and edges: the walk's
/// rows (`walk`, `walk_step`) give the node identifiers and, through
/// `flatten`, the edges; each node's data is a clone of the node's data.
/// `None` when a node's data is in use elsewhere.
fn reify_with<T: Clone, H: Handle<T>, F: Fn(&T) -> Vec<H>>(root: H, children: F) -> (r: Option<
    ReifiedGraph<T>,
>)
    requires
        forall|x: &T| #[trigger] children.requires((x,)),
    ensures
        r matches Some(g) ==> reified(g) && rooted(g) && forall|j: int|
            0 <= j < g.nodes@.len() ==> #[trigger] may_list(
                children,
                targets_of(g.edges@, g.nodes@[j].0).len(),
            ),
{
    let (table, handles) = match walk(&root, &children) {
        Some(p) => p,
        None => {
            return None;
        },
    };
    let (ids, edges) = flatten(&table);
    let ghost kids = row_kids(table@);
    let mut nodes: Vec<(NodeId, T)> = Vec::new();
    let mut i: usize = 0;
    while i < ids.len()
        invariant
            i <= ids@.len(),
            ids@ == row_ids(table@),
            handles@.len() == table@.len(),
            nodes@.len() == i,
            forall|j: int| 0 <= j < i ==> #[trigger] nodes@[j].0 == ids@[j],
        decreases ids@.len() - i,
    {
        let data = match handles[i].read(&clone_of) {
            Some(d) => d,
            None => {
                return None;
            },
        };
        nodes.push((ids[i], data));
        i = i + 1;
    }
    let g = ReifiedGraph { nodes, edges, root: ids[0] };
    proof {
        let gi = ids_of(g.nodes@);
        assert(gi =~= row_ids(table@));
        assert(kids.len() == gi.len());
        assert forall|m: int| 0 <= m < g.edges@.len() implies has_node(g, (#[trigger] g.edges@[m]).0)
            && has_node(g, g.edges@[m].1) by {
            let (j, k) = lemma_edge_at(gi, kids, m);
            assert(g.nodes@[j].0 == gi[j]);
            assert(gi.contains(kids[j][k]));
            let w = choose|w: int| 0 <= w < gi.len() && gi[w] == kids[j][k];
            assert(g.nodes@[w].0 == gi[w]);
        }
        lemma_targets_edges_of_all(gi, kids);
        assert forall|i: int| 1 <= i < g.nodes@.len() implies #[trigger] linked_from_earlier(g, i) by {
            assert(g.nodes@[i].0 == gi[i]);
            assert(gi[i] == row_ids(table@)[i]);
            assert(child_of_earlier(row_ids(table@), kids, i));
            let (j, k) = choose|j: int, k: int|
                0 <= j < i && 0 <= k < kids[j].len() && #[trigger] kids[j][k] == row_ids(table@)[i];
            assert(g.nodes@[j].0 == gi[j]);
            let t = targets_of(g.edges@, g.nodes@[j].0);
            assert(t == kids[j]);
            assert(t[k] == g.nodes@[i].0);
            assert(t.contains(g.nodes@[i].0));
        }
        assert(rooted(g));
        assert forall|j: int| 0 <= j < g.nodes@.len() implies #[trigger] may_list(
            children,
            targets_of(g.edges@, g.nodes@[j].0).len(),
        ) by {
            assert(g.nodes@[j].0 == gi[j]);
            assert(targets_of(g.edges@, gi[j]) == kids[j]);
            assert(kids[j] == table@[j].1@);
        }
    }
    Some(g)
}

/// Each node's outgoing targets in `edges_of(ids, kids)` are its children.
proof fn lemma_targets_edges_of_all(ids: Seq<NodeId>, kids: Seq<Seq<NodeId>>)
    requires
        kids.len() <= ids.len(),
        ids_distinct(ids),
    ensures
        forall|j: int| 0 <= j < kids.len() ==> #[trigger] targets_of(edges_of(ids, kids), ids[j]) == kids[j],
{
    assert forall|j: int| 0 <= j < kids.len() implies #[trigger] targets_of(edges_of(ids, kids), ids[j])
        == kids[j] by {
        lemma_targets_edges_of(ids, kids, ids[j]);
    }
}

/// The index of the last node with identifier `id` among `ids`, or -1.
pub open spec fn last_index_of(ids: Seq<NodeId>, id: NodeId) -> int
    decreases ids.len(),
{
    if ids.len() == 0 {
        -1
    } else if ids.last() == id {
        ids.len() - 1
    } else {
        last_index_of(ids.drop_last(), id)
    }
}

/// The targets of the edges leaving `id`, in edge order.
pub open spec fn targets_of(edges: Seq<(NodeId, NodeId)>, id: NodeId) -> Seq<NodeId>
    decreases edges.len(),
{
    if edges.len() == 0 {
        Seq::empty()
    } else if edges.last().0 == id {
        targets_of(edges.drop_last(), id).push(edges.last().1)
    } else {
        targets_of(edges.drop_last(), id)
    }
}

/// A graph can be rebuilt: its root is a node, and every edge that leaves a
/// node leads to a node.
pub open spec fn reflectable<T>(g: ReifiedGraph<T>) -> bool {
    &&& has_node(g, g.root)
    &&& forall|m: int|
        0 <= m < g.edges@.len() && has_node(g, (#[trigger] g.edges@[m]).0) ==> has_node(
            g,
            g.edges@[m].1,
        )
}

proof fn lemma_last_index_of(ids: Seq<NodeId>, id: NodeId)
    ensures
        -1 <= last_index_of(ids, id) < ids.len(),
        last_index_of(ids, id) >= 0 ==> ids[last_index_of(ids, id)] == id,
        last_index_of(ids, id) == -1 <==> !ids.contains(id),
        forall|j: int| last_index_of(ids, id) < j < ids.len() ==> ids[j] != id,
    decreases ids.len(),
{
    if ids.len() > 0 {
        lemma_last_index_of(ids.drop_last(), id);
        if ids.last() != id {
            if ids.contains(id) {
                let w = choose|w: int| 0 <= w < ids.len() && ids[w] == id;
                assert(ids.drop_last()[w] == id);
            }
            assert forall|j: int| last_index_of(ids, id) < j < ids.len() implies ids[j] != id by {
                if j < ids.len() - 1 {
                    assert(ids[j] == ids.drop_last()[j]);
                }
            }
        } else {
            assert(ids.contains(id));
        }
    }
}

/// The index of the node that stands for `id` when the graph is rebuilt:
/// the last node with that identifier, or `None`.
pub fn node_index<T>(nodes: &Vec<(NodeId, T)>, id: NodeId) -> (r: Option<usize>)
    ensures
        r == (if last_index_of(ids_of(nodes@), id) >= 0 {
            Some(last_index_of(ids_of(nodes@), id) as usize)
        } else {
            None::<usize>
        }),
{
    let ghost ids = ids_of(nodes@);
    let mut i: usize = nodes.len();
    proof {
        assert(ids.take(i as int) =~= ids);
    }
    while i > 0
        invariant
            i <= nodes@.len(),
            ids == ids_of(nodes@),
            last_index_of(ids, id) == last_index_of(ids.take(i as int), id),
        decreases i,
    {
        assert(ids.take(i as int).last() == nodes@[i - 1].0);
        if nodes[i - 1].0 == id {
            return Some(i - 1);
        }
        assert(ids.take(i as int).drop_last() =~= ids.take(i - 1));
        i = i - 1;
    }
    None
}

/// The child slots of node `id` when the graph is rebuilt: for each edge
/// leaving `id`, in edge order, the index of the node that stands for its
/// target. Every reference to an identifier resolves to that one node, which
/// is how sharing is preserved.
pub fn child_slots<T>(graph: &ReifiedGraph<T>, id: NodeId) -> (r: Vec<usize>)
    requires
        reflectable(*graph),
        has_node(*graph, id),
    ensures
        r@.len() == targets_of(graph.edges@, id).len(),
        forall|k: int|
            0 <= k < r@.len() ==> #[trigger] r@[k] == last_index_of(
                ids_of(graph.nodes@),
                targets_of(graph.edges@, id)[k],
            ),
        forall|k: int| 0 <= k < r@.len() ==> #[trigger] r@[k] < graph.nodes@.len(),
{
    let ghost ids = ids_of(graph.nodes@);
    let mut r: Vec<usize> = Vec::new();
    let mut m: usize = 0;
    while m < graph.edges.len()
        invariant
            reflectable(*graph),
            has_node(*graph, id),
            ids == ids_of(graph.nodes@),
            m <= graph.edges@.len(),
            r@.len() == targets_of(graph.edges@.take(m as int), id).len(),
            forall|k: int|
                0 <= k < r@.len() ==> #[trigger] r@[k] == last_index_of(
                    ids,
                    targets_of(graph.edges@.take(m as int), id)[k],
                ),
            forall|k: int| 0 <= k < r@.len() ==> #[trigger] r@[k] < graph.nodes@.len(),
        decreases graph.edges@.len() - m,
    {
        let (from, to) = graph.edges[m];
        let ghost pre = graph.edges@.take(m as int);
        assert(graph.edges@.take(m + 1).drop_last() =~= pre);
        assert(graph.edges@.take(m + 1).last() == (from, to));
        if from == id {
            assert(targets_of(graph.edges@.take(m + 1), id) == targets_of(pre, id).push(to));
            assert(has_node(*graph, graph.edges@[m as int].1));
            proof {
                let w = choose|w: int| 0 <= w < graph.nodes@.len() && #[trigger] graph.nodes@[w].0 == to;
                lemma_last_index_of(ids, to);
                assert(ids[w] == to);
                assert(ids.contains(to));
            }
            let idx = node_index(&graph.nodes, to);
            let ghost old_r = r@;
            assert(graph.nodes@.len() <= usize::MAX) by {
                assert(graph.nodes.len() == graph.nodes@.len());
            }
            r.push(idx.unwrap());
            assert(r@.last() == last_index_of(ids, to));
            assert forall|k: int| 0 <= k < r@.len() implies #[trigger] r@[k] == last_index_of(
                ids,
                targets_of(graph.edges@.take(m + 1), id)[k],
            ) by {
                if k < old_r.len() {
                    assert(r@[k] == old_r[k]);
                }
            }
        } else {
            assert(targets_of(graph.edges@.take(m + 1), id) == targets_of(pre, id));
        }
        m = m + 1;
    }
    assert(graph.edges@.take(graph.edges@.len() as int) =~= graph.edges@);
    r
}

/// Rebuild a pointer graph from its flat form: one fresh cell per node
/// identifier, holding a clone of the node's data; for each node with
/// outgoing edges, `set_children` receives the cells of its children in
/// edge order (see `child_slots`); the root's cell is returned. `None`
/// when a rebuilt cell is in use elsewhere while its children are wired.
fn reflect_with<T: Clone, H: Handle<T>, F: Fn(&mut T, Vec<H>)>(graph: ReifiedGraph<T>, set_children: F) -> (r: Option<H>)
    requires
        reflectable(graph),
        forall|t: &mut T, a: Vec<H>| #[trigger] set_children.requires((t, a)),
    ensures
        r matches Some(root) ==> rebuilt(graph, set_children, root),
{
    let ghost ids = ids_of(graph.nodes@);
    let n = graph.nodes.len();
    let mut cells: Vec<H> = Vec::new();
    let mut i: usize = 0;
    while i < n
        invariant
            n == graph.nodes@.len(),
            i <= n,
            cells@.len() == i,
        decreases n - i,
    {
        cells.push(H::make(clone_of(&graph.nodes[i].1)));
        i = i + 1;
    }
    let mut i: usize = 0;
    while i < n
        invariant
            reflectable(graph),
            forall|t: &mut T, a: Vec<H>| #[trigger] set_children.requires((t, a)),
            n == graph.nodes@.len(),
            ids == ids_of(graph.nodes@),
            i <= n,
            cells@.len() == n,
            forall|j: int|
                0 <= j < i && wired_node(graph, j) ==> #[trigger] handed(
                    set_children,
                    child_cells(graph, cells@, graph.nodes@[j].0),
                ),
        decreases n - i,
    {
        let id = graph.nodes[i].0;
        let ni = node_index(&graph.nodes, id);
        if ni == Some(i) {
            assert(graph.nodes@[i as int].0 == id);
            assert(has_node(graph, id));
            let slots = child_slots(&graph, id);
            if slots.len() > 0 {
                let ghost want = child_cells(graph, cells@, id);
                let mut kids: Vec<H> = Vec::new();
                let mut k: usize = 0;
                while k < slots.len()
                    invariant
                        k <= slots@.len(),
                        cells@.len() == n,
                        slots@.len() == targets_of(graph.edges@, id).len(),
                        forall|j: int|
                            0 <= j < slots@.len() ==> #[trigger] slots@[j] == last_index_of(
                                ids,
                                targets_of(graph.edges@, id)[j],
                            ),
                        forall|j: int| 0 <= j < slots@.len() ==> #[trigger] slots@[j] < n,
                        want == child_cells(graph, cells@, id),
                        ids == ids_of(graph.nodes@),
                        kids@ == want.take(k as int),
                    decreases slots@.len() - k,
                {
                    kids.push(cells[slots[k]].share());
                    assert(want[k as int] == cells@[slots@[k as int] as int]);
                    assert(kids@ =~= want.take(k + 1));
                    k = k + 1;
                }
                assert(kids@ =~= want);
                if !cells[i].write(&set_children, kids) {
                    return None;
                }
                assert(handed(set_children, want));
            }
        }
        proof {
            if wired_node(graph, i as int) {
                assert(ids[i as int] == id);
                assert(ni == Some(i));
            }
        }
        i = i + 1;
    }
    proof {
        let w = choose|w: int| 0 <= w < graph.nodes@.len() && #[trigger] graph.nodes@[w].0 == graph.root;
        lemma_last_index_of(ids_of(graph.nodes@), graph.root);
        assert(ids_of(graph.nodes@)[w] == graph.root);
    }
    let r = node_index(&graph.nodes, graph.root).unwrap();
    let root = cells[r].share();
    assert(wired(graph, set_children, cells@));
    Some(root)
}

/// The cells that stand for the targets of the edges leaving `id`, in edge
/// order, where `cells[j]` is the cell rebuilt for node `j`: each target is
/// resolved to the last node with its identifier.
pub open spec fn child_cells<T, H>(g: ReifiedGraph<T>, cells: Seq<H>, id: NodeId) -> Seq<H> {
    cells_of(g, cells, targets_of(g.edges@, id))
}

/// The cells that stand for the identifiers `ks`, in order, where
/// `cells[j]` is the cell rebuilt for node `j`.
pub open spec fn cells_of<T, H>(g: ReifiedGraph<T>, cells: Seq<H>, ks: Seq<NodeId>) -> Seq<H> {
    ks.map_values(|c: NodeId| cells[last_index_of(ids_of(g.nodes@), c)])
}

/// `set_children` was called with a list of exactly the handles `kids`.
pub open spec fn handed<T, H, F: Fn(&mut T, Vec<H>)>(set_children: F, kids: Seq<H>) -> bool {
    exists|t: &mut T, v: Vec<H>| #[trigger] set_children.ensures((t, v), ()) && v@ == kids
}

/// Node `i` stands for its identifier (it is the last node with it) and has
/// outgoing edges, so its children are wired.
pub open spec fn wired_node<T>(g: ReifiedGraph<T>, i: int) -> bool {
    &&& 0 <= i < g.nodes@.len()
    &&& last_index_of(ids_of(g.nodes@), g.nodes@[i].0) == i
    &&& targets_of(g.edges@, g.nodes@[i].0).len() > 0
}

/// The wiring of a rebuilt graph whose node `j` became `cells[j]`: for each
/// node that is wired, `set_children` was handed the cells of the targets of
/// its outgoing edges, in edge order.
pub open spec fn wired<T, H, F: Fn(&mut T, Vec<H>)>(
    g: ReifiedGraph<T>,
    set_children: F,
    cells: Seq<H>,
) -> bool {
    forall|i: int|
        wired_node(g, i) ==> #[trigger] handed(set_children, child_cells(g, cells, g.nodes@[i].0))
}

/// The outcome of rebuilding `g` into `root`: there is one cell per node,
/// the root is the cell of the node that stands for the root identifier,
/// and the children were wired in edge order.
pub open spec fn rebuilt<T, H, F: Fn(&mut T, Vec<H>)>(g: ReifiedGraph<T>, set_children: F, root: H) -> bool {
    exists|cells: Seq<H>|
        cells.len() == g.nodes@.len() && root == cells[last_index_of(ids_of(g.nodes@), g.root)]
            && #[trigger] wired(g, set_children, cells)
}

proof fn lemma_targets_concat(a: Seq<(NodeId, NodeId)>, b: Seq<(NodeId, NodeId)>, id: NodeId)
    ensures
        targets_of(a + b, id) == targets_of(a, id) + targets_of(b, id),
    decreases b.len(),
{
    if b.len() == 0 {
        assert(a + b =~= a);
        assert(targets_of(a, id) + targets_of(b, id) =~= targets_of(a, id));
    } else {
        lemma_targets_concat(a, b.drop_last(), id);
        assert((a + b).drop_last() =~= a + b.drop_last());
        assert((a + b).last() == b.last());
        if b.last().0 == id {
            assert(targets_of(a, id) + targets_of(b, id) =~= (targets_of(a, id) + targets_of(
                b.drop_last(),
                id,
            )).push(b.last().1));
        }
    }
}

proof fn lemma_targets_single(src: NodeId, ks: Seq<NodeId>, id: NodeId)
    ensures
        targets_of(ks.map_values(|k: NodeId| (src, k)), id) == (if src == id {
            ks
        } else {
            Seq::<NodeId>::empty()
        }),
    decreases ks.len(),
{
    if ks.len() > 0 {
        lemma_targets_single(src, ks.drop_last(), id);
        assert(ks.map_values(|k: NodeId| (src, k)).drop_last() =~= ks.drop_last().map_values(
            |k: NodeId| (src, k),
        ));
        if src == id {
            assert(ks.drop_last().push(ks.last()) =~= ks);
        }
    } else {
        assert(ks.map_values(|k: NodeId| (src, k)) =~= Seq::<(NodeId, NodeId)>::empty());
    }
}

proof fn lemma_targets_edges_of(ids: Seq<NodeId>, kids: Seq<Seq<NodeId>>, id: NodeId)
    requires
        kids.len() <= ids.len(),
        ids_distinct(ids),
    ensures
        forall|i: int| 0 <= i < kids.len() && ids[i] == id ==> targets_of(edges_of(ids, kids), id) == kids[i],
        (forall|i: int| 0 <= i < kids.len() ==> ids[i] != id) ==> targets_of(edges_of(ids, kids), id)
            == Seq::<NodeId>::empty(),
    decreases kids.len(),
{
    if kids.len() > 0 {
        let n = (kids.len() - 1) as int;
        let pre = kids.take(n);
        lemma_targets_edges_of(ids, pre, id);
        lemma_targets_concat(edges_of(ids, pre), kids[n].map_values(|k: NodeId| (ids[n], k)), id);
        lemma_targets_single(ids[n], kids[n], id);
        assert forall|i: int| 0 <= i < kids.len() && ids[i] == id implies targets_of(
            edges_of(ids, kids),
            id,
        ) == kids[i] by {
            if i < n {
                assert(pre[i] == kids[i]);
                assert(ids[n] != ids[i]);
                assert(targets_of(edges_of(ids, pre), id) + Seq::<NodeId>::empty() =~= kids[i]);
            } else {
                assert forall|j: int| 0 <= j < pre.len() implies ids[j] != id by {
                    assert(ids[j] != ids[n]);
                }
                assert(Seq::<NodeId>::empty() + kids[n] =~= kids[n]);
            }
        }
        if forall|i: int| 0 <= i < kids.len() ==> ids[i] != id {
            assert(ids[n] != id);
            assert(Seq::<NodeId>::empty() + Seq::<NodeId>::empty() =~= Seq::<NodeId>::empty());
        }
    }
}

/// Rebuilding a flattened graph restores its shape: a graph as
/// `reify_graph` returns it can be rebuilt, every node stands for its own
/// identifier, and the children `reflect_graph` wires to each node are
/// exactly the children it was flattened with, in order.
pub proof fn lemma_reflect_after_reify<T>(g: ReifiedGraph<T>, kids: Seq<Seq<NodeId>>)
    requires
        reified(g),
        kids.len() == g.nodes@.len(),
        g.edges@ == edges_of(ids_of(g.nodes@), kids),
    ensures
        reflectable(g),
        forall|i: int|
            0 <= i < g.nodes@.len() ==> last_index_of(ids_of(g.nodes@), #[trigger] g.nodes@[i].0)
                == i,
        forall|i: int|
            0 <= i < g.nodes@.len() ==> targets_of(g.edges@, #[trigger] g.nodes@[i].0) == kids[i],
{
    let ids = ids_of(g.nodes@);
    assert(ids[0] == g.nodes@[0].0);
    assert(has_node(g, g.root));
    assert forall|i: int| 0 <= i < g.nodes@.len() implies last_index_of(
        ids,
        #[trigger] g.nodes@[i].0,
    ) == i by {
        assert(ids[i] == g.nodes@[i].0);
        lemma_last_index_of(ids, ids[i]);
        assert(ids.contains(ids[i]));
    }
    assert forall|i: int| 0 <= i < g.nodes@.len() implies targets_of(
        g.edges@,
        #[trigger] g.nodes@[i].0,
    ) == kids[i] by {
        assert(ids[i] == g.nodes@[i].0);
        lemma_targets_edges_of(ids, kids, ids[i]);
    }
}

/// Rebuilding a flattened graph wires each node to the children it was
/// flattened with: when `g` is a graph as `reify_graph` returns it, flattened
/// with children `kids`, and `cells` is a wiring of it (`reflect_graph`'s
/// contract), every node with children had `set_children` handed exactly
/// the cells of those children, in their order.
pub proof fn lemma_rebuild_hands_children<T, H, F: Fn(&mut T, Vec<H>)>(
    g: ReifiedGraph<T>,
    kids: Seq<Seq<NodeId>>,
    set_children: F,
    cells: Seq<H>,
)
    requires
        reified(g),
        kids.len() == g.nodes@.len(),
        g.edges@ == edges_of(ids_of(g.nodes@), kids),
        cells.len() == g.nodes@.len(),
        wired(g, set_children, cells),
    ensures
        forall|i: int|
            0 <= i < kids.len() && kids[i].len() > 0 ==> #[trigger] handed(
                set_children,
                cells_of(g, cells, kids[i]),
            ),
{
    lemma_reflect_after_reify(g, kids);
    assert forall|i: int| 0 <= i < kids.len() && kids[i].len() > 0 implies #[trigger] handed(
        set_children,
        cells_of(g, cells, kids[i]),
    ) by {
        assert(targets_of(g.edges@, g.nodes@[i].0) == kids[i]);
        assert(last_index_of(ids_of(g.nodes@), g.nodes@[i].0) == i);
        assert(wired_node(g, i));
        assert(child_cells(g, cells, g.nodes@[i].0) == cells_of(g, cells, kids[i]));
    }
}

/// Why a graph could not be walked or rebuilt.
#[derive(Debug, PartialEq, Eq)]
pub enum GraphError {
    /// A node's data was in use elsewhere (its cell borrowed, or its mutex
    /// locked or poisoned) when it had to be read or written.
    NodeInUse,
}

/// Collect every node reachable from `root`, each once, paired with its
/// identifier, in the order of a depth-first walk (`walk_step`): the root
/// comes first, no identifier occurs twice, and for the children the walk
/// read, every child is a listed node, every node after the root is a
/// child of a node listed before it, and each node has as many children as
/// some call of `children` returns. Fails with `NodeInUse` when a node's
/// data is in use elsewhere.
pub fn collect_nodes<T, F: Fn(&T) -> Vec<Rc<RefCell<T>>>>(root: &Rc<RefCell<T>>, children: &F) -> (r:
    Result<Vec<(NodeId, Rc<RefCell<T>>)>, GraphError>)
    requires
        forall|x: &T| #[trigger] children.requires((x,)),
    ensures
        r matches Ok(v) ==> (v@.len() >= 1 && v@[0].1 == *root && ids_distinct(ids_of(v@))
            && exists|kids: Seq<Seq<NodeId>>|
            kids.len() == v@.len() && kids_closed(ids_of(v@), kids) && reached_in_order(
                ids_of(v@),
                kids,
            ) && forall|j: int| 0 <= j < kids.len() ==> #[trigger] may_list(*children, kids[j].len())),
{
    match collect_with(root, children) {
        Some(v) => Ok(v),
        None => Err(GraphError::NodeInUse),
    }
}

/// Flatten the graph reachable from `root` into nodes and edges.
///
/// The nodes are the reachable nodes, each once (the root first), with
/// cloned data; the edges are, node by node in node order, the node's
/// children in the order `children` gave them, so a shared child yields one
/// node and one edge per parent, and every edge leads to a node of the
/// graph. The walk is `walk_step` on the identifiers read and the edges are
/// `flatten` of its rows, so every node after the root is the target of an
/// edge from a node listed before it, and each node has as many outgoing
/// edges as some call of `children` returns children. Fails with
/// `NodeInUse` when a node's data is in use elsewhere.
pub fn reify_graph<T: Clone, F: Fn(&T) -> Vec<Rc<RefCell<T>>>>(root: Rc<RefCell<T>>, children: F) -> (r:
    Result<ReifiedGraph<T>, GraphError>)
    requires
        forall|x: &T| #[trigger] children.requires((x,)),
    ensures
        r matches Ok(g) ==> (reified(g) && rooted(g) && forall|j: int|
            0 <= j < g.nodes@.len() ==> #[trigger] may_list(
                children,
                targets_of(g.edges@, g.nodes@[j].0).len(),
            )),
{
    match reify_with(root, children) {
        Some(g) => Ok(g),
        None => Err(GraphError::NodeInUse),
    }
}

/// Rebuild a pointer graph from its flat form: one fresh cell per node
/// identifier, holding a clone of the node's data; for each node with
/// outgoing edges, `set_children` receives the cells of its children in
/// edge order; the root's cell is returned. Fails with `NodeInUse` when a
/// rebuilt cell is in use elsewhere while its children are wired.
///
/// The contract (`rebuilt`) states the wiring: there is one cell per node,
/// the root's cell is returned, and for every node that stands for its
/// identifier and has outgoing edges, `set_children` was handed the cells
/// of its edges' targets in edge order, each target resolved to the last
/// node with its identifier (`child_cells`). Cells are opaque here, so what
/// a cell holds, and which call wrote which cell, are not stated.
pub fn reflect_graph<T: Clone, F: Fn(&mut T, Vec<Rc<RefCell<T>>>)>(graph: ReifiedGraph<T>, set_children: F) -> (r: Result<
    Rc<RefCell<T>>,
    GraphError,
>)
    requires
        reflectable(graph),
        forall|t: &mut T, a: Vec<Rc<RefCell<T>>>| #[trigger] set_children.requires((t, a)),
    ensures
        r matches Ok(root) ==> rebuilt(graph, set_children, root),
{
    match reflect_with(graph, set_children) {
        Some(r) => Ok(r),
        None => Err(GraphError::NodeInUse),
    }
}

} // verus!
