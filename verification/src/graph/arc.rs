//! The same flattening and rebuilding for `Arc<Mutex<T>>` graphs.

use super::{
    collect_with, ids_distinct, ids_of, kids_closed, may_list, reached_in_order, rebuilt,
    reflect_with, reflectable, reified, reify_with, rooted, targets_of, GraphError, Handle, NodeId,
    ReifiedGraph,
};
use std::sync::{Arc, Mutex};
use vstd::prelude::*;

verus! {

/// `Arc::clone`: another handle to the same allocation.
#[verifier::external_body]
fn arc_clone<T>(arc: &Arc<T>) -> (r: Arc<T>)
    ensures
        r == *arc,
{
    Arc::clone(arc)
}

/// Applies `f` to the contents of the mutex (`Mutex::try_lock`), or gives
/// `None` when the mutex is locked at the time or poisoned. What the
/// contents are is not stated: a result is some result `f` may give.
#[verifier::external_body]
fn read_locked<T, R, F: Fn(&T) -> R>(m: &Arc<Mutex<T>>, f: &F) -> (r: Option<R>)
    requires
        forall|t: &T| #[trigger] f.requires((t,)),
    ensures
        r matches Some(v) ==> exists|t: &T| #[trigger] f.ensures((t,), v),
{
    match m.try_lock() {
        Ok(contents) => Some(f(&contents)),
        Err(_) => None,
    }
}

/// Applies `f` to the contents of the mutex, mutably, with `arg`
/// (`Mutex::try_lock`), and gives `true`; gives `false`, without calling
/// `f`, when the mutex is locked at the time or poisoned. Nothing is stated
/// of the contents.
#[verifier::external_body]
fn write_locked<T, A, F: Fn(&mut T, A)>(m: &Arc<Mutex<T>>, f: &F, arg: A) -> (r: bool)
    requires
        forall|t: &mut T, a: A| #[trigger] f.requires((t, a)),
    ensures
        r ==> exists|t: &mut T| #[trigger] f.ensures((t, arg), ()),
{
    match m.try_lock() {
        Ok(mut contents) => {
            f(&mut contents, arg);
            true
        },
        Err(_) => false,
    }
}

/// The identifier of an `Arc<Mutex<T>>`: the address of its allocation
/// (`Arc::as_ptr`). Addresses depend on the allocator, so nothing is stated
/// of the result; handles to one allocation get one identifier.
#[verifier::external_body]
pub fn node_id_of_arc<T>(arc: &Arc<Mutex<T>>) -> NodeId {
    NodeId(Arc::as_ptr(arc) as usize)
}

impl<T> Handle<T> for Arc<Mutex<T>> {
    fn node_id(&self) -> NodeId {
        node_id_of_arc(self)
    }

    fn share(&self) -> (r: Self) {
        arc_clone(self)
    }

    fn read<R, F: Fn(&T) -> R>(&self, f: &F) -> (r: Option<R>) {
        read_locked(self, f)
    }

    fn write<A, F: Fn(&mut T, A)>(&self, f: &F, arg: A) -> bool {
        write_locked(self, f, arg)
    }

    fn make(data: T) -> Self {
        Arc::new(Mutex::new(data))
    }
}

/// Collect every node reachable from `root`, each once, paired with its
/// identifier, as `collect_nodes` does for `Rc<RefCell<T>>` graphs. Fails
/// with `NodeInUse` when a node's mutex is locked or poisoned.
pub fn collect_nodes_arc<T, F: Fn(&T) -> Vec<Arc<Mutex<T>>>>(root: &Arc<Mutex<T>>, children: &F) -> (r:
    Result<Vec<(NodeId, Arc<Mutex<T>>)>, GraphError>)
    requires
        forall|x: &T| #[trigger] children.requires((x,)),
    ensures
        r matches Ok(v) ==> (v@.len() >= 1 && v@[0].1 == *root && ids_distinct(ids_of(v@))
            && exists|kids: Seq<Seq<NodeId>>|
            kids.len() == v@.len() && kids_closed(ids_of(v@), kids) && reached_in_order(
                ids_of(v@),
                kids,
            ) && forall|j: int| 0 <= j < kids.len() ==> #[trigger] may_list(*children, kids[j].len())),
{
    match collect_with(root, children) {
        Some(v) => Ok(v),
        None => Err(GraphError::NodeInUse),
    }
}

/// Flatten the graph reachable from `root` into nodes and edges, as
/// `reify_graph` does for `Rc<RefCell<T>>` graphs.
pub fn reify_graph_arc<T: Clone, F: Fn(&T) -> Vec<Arc<Mutex<T>>>>(root: Arc<Mutex<T>>, children: F) -> (r:
    Result<ReifiedGraph<T>, GraphError>)
    requires
        forall|x: &T| #[trigger] children.requires((x,)),
    ensures
        r matches Ok(g) ==> (reified(g) && rooted(g) && forall|j: int|
            0 <= j < g.nodes@.len() ==> #[trigger] may_list(
                children,
                targets_of(g.edges@, g.nodes@[j].0).len(),
            )),
{
    match reify_with(root, children) {
        Some(g) => Ok(g),
        None => Err(GraphError::NodeInUse),
    }
}

/// Rebuild an `Arc<Mutex<T>>` graph from its flat form, as `reflect_graph`
/// does for `Rc<RefCell<T>>` graphs: one fresh mutex per node identifier,
/// the root's returned, and `set_children` handed each wired node's
/// children in edge order (`rebuilt`). What a mutex holds is not stated.
pub fn reflect_graph_arc<T: Clone, F: Fn(&mut T, Vec<Arc<Mutex<T>>>)>(
    graph: ReifiedGraph<T>,
    set_children: F,
) -> (r: Result<Arc<Mutex<T>>, GraphError>)
    requires
        reflectable(graph),
        forall|t: &mut T, a: Vec<Arc<Mutex<T>>>| #[trigger] set_children.requires((t, a)),
    ensures
        r matches Ok(root) ==> rebuilt(graph, set_children, root),
{
    match reflect_with(graph, set_children) {
        Some(r) => Ok(r),
        None => Err(GraphError::NodeInUse),
    }
}

} // verus!
