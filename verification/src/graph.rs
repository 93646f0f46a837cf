//! The component graph: typed layers of components and directed edges
//! between nodes of different layers.
//!
//! A `Layer<T>` is an append-only store of components of one type; a node is
//! addressed by its layer id and its index within the layer. The `Graph`
//! itself holds only the edge matrix: `edge(from_layer, to_layer, from_item)`
//! is the index of the neighbouring component on the target layer, if an edge
//! was made. Edges are single-valued per (from layer, to layer, from item).

use std::marker::PhantomData;
use vstd::prelude::*;

verus! {

/// The edge store. A three-dimensional sparse array:
/// first dimension the starting layer, second the target layer,
/// third the component on the starting layer; the stored value is the
/// index of the component on the target layer.
pub struct Graph {
    edge_layers: Vec<Vec<Vec<Option<usize>>>>,
}

impl Graph {
    /// How many layers have been created from this graph.
    pub closed spec fn layer_count(&self) -> nat {
        self.edge_layers@.len()
    }

    /// The edge from `(from_layer, to_layer, item)`, read as a total function:
    /// slots that were never touched hold no edge.
    pub closed spec fn edge(&self, from_layer: int, to_layer: int, item: int) -> Option<usize> {
        if 0 <= from_layer < self.edge_layers@.len()
            && 0 <= to_layer < self.edge_layers@[from_layer]@.len()
            && 0 <= item < self.edge_layers@[from_layer]@[to_layer]@.len() {
            self.edge_layers@[from_layer]@[to_layer]@[item]
        } else {
            None
        }
    }

    /// Every layer has exactly one target slot per layer.
    pub closed spec fn wf(&self) -> bool {
        forall|i: int|
            0 <= i < self.edge_layers@.len() ==> (#[trigger] self.edge_layers@[i]@.len())
                == self.edge_layers@.len()
    }

    pub fn new() -> (g: Graph)
        ensures
            g.wf(),
            g.layer_count() == 0,
    {
        Graph { edge_layers: Vec::new() }
    }

    /// How many layers have been created, as a run-time value.
    pub fn num_layers(&self) -> (n: usize)
        ensures
            n == self.layer_count(),
    {
        self.edge_layers.len()
    }

    /// How many target-layer slots a layer's edge store holds; in a
    /// well-formed graph this is one per layer.
    pub fn target_slot_count(&self, layer: usize) -> (n: usize)
        requires
            layer < self.layer_count(),
        ensures
            self.wf() ==> n == self.layer_count(),
    {
        self.edge_layers[layer].len()
    }

    /// Create a new layer. Every existing layer gains one empty target slot
    /// for the new layer, and the new layer gets a target slot for every
    /// layer including itself. No existing edge is touched.
    pub fn create_layer<T>(&mut self) -> (layer: Layer<T>)
        requires
            old(self).wf(),
            old(self).layer_count() < 100_000_000,
        ensures
            final(self).wf(),
            final(self).layer_count() == old(self).layer_count() + 1,
            layer.id() == old(self).layer_count(),
            layer@ == Seq::<T>::empty(),
            forall|f: int, t: int, i: int|
                #[trigger] final(self).edge(f, t, i) == old(self).edge(f, t, i),
    {
        let next_idx = self.edge_layers.len();

        // add this as a target layer to all layers that already exist
        let mut j: usize = 0;
        while j < next_idx
            invariant
                j <= next_idx,
                next_idx < 100_000_000,
                self.edge_layers@.len() == next_idx,
                forall|i: int|
                    0 <= i < j ==> (#[trigger] self.edge_layers@[i]@.len()) == next_idx + 1,
                forall|i: int|
                    j <= i < next_idx ==> (#[trigger] self.edge_layers@[i]@.len()) == next_idx,
                forall|i: int, t: int|
                    0 <= i < next_idx && 0 <= t < next_idx ==> #[trigger] self.edge_layers@[i]@[t]
                        == old(self).edge_layers@[i]@[t],
                forall|i: int|
                    0 <= i < j ==> (#[trigger] self.edge_layers@[i]@[next_idx as int]@.len()) == 0,
            decreases next_idx - j,
        {
            self.edge_layers[j].push(Vec::new());
            j += 1;
        }

        // for the new layer, one empty target slot for each existing layer
        // plus itself
        let mut targets: Vec<Vec<Option<usize>>> = Vec::new();
        let mut k: usize = 0;
        while k < next_idx + 1
            invariant
                k <= next_idx + 1,
                next_idx < 100_000_000,
                targets@.len() == k,
                forall|t: int| 0 <= t < k ==> (#[trigger] targets@[t]@.len()) == 0,
            decreases next_idx + 1 - k,
        {
            targets.push(Vec::new());
            k += 1;
        }
        self.edge_layers.push(targets);

        proof {
            assert forall|f: int, t: int, i: int|
                #[trigger] self.edge(f, t, i) == old(self).edge(f, t, i) by {
                if 0 <= f < next_idx {
                    if 0 <= t < next_idx {
                        assert(self.edge_layers@[f]@[t] == old(self).edge_layers@[f]@[t]);
                    } else if t == next_idx {
                        assert(self.edge_layers@[f]@[t]@.len() == 0);
                        assert(old(self).edge(f, t, i) is None);
                    }
                } else if f == next_idx {
                    assert(old(self).edge(f, t, i) is None);
                    if 0 <= t < next_idx + 1 {
                        assert(self.edge_layers@[f]@[t]@.len() == 0);
                    }
                }
            }
        }

        Layer { index: next_idx, content: Vec::new() }
    }

    /// Connect two nodes in both directions.
    ///
    /// Writing over an existing edge towards a different target is a misuse
    /// (the run-time build panics on it), so it is excluded here; writing the
    /// identical edge again is idempotent.
    pub fn connect<T1, T2>(&mut self, node1: &NodeRef<'_, T1>, node2: &NodeRef<'_, T2>)
        requires
            old(self).wf(),
            node1.layer_idx < old(self).layer_count(),
            node2.layer_idx < old(self).layer_count(),
            node1.item_idx < usize::MAX,
            node2.item_idx < usize::MAX,
            edge_free_or_same(
                old(self).edge(node1.layer_idx as int, node2.layer_idx as int, node1.item_idx as int),
                node2.item_idx,
            ),
            edge_free_or_same(
                old(self).edge(node2.layer_idx as int, node1.layer_idx as int, node2.item_idx as int),
                node1.item_idx,
            ),
            !(node1.layer_idx == node2.layer_idx && node1.item_idx == node2.item_idx),
        ensures
            final(self).wf(),
            final(self).layer_count() == old(self).layer_count(),
            final(self).edge(node1.layer_idx as int, node2.layer_idx as int, node1.item_idx as int)
                == Some(node2.item_idx),
            final(self).edge(node2.layer_idx as int, node1.layer_idx as int, node2.item_idx as int)
                == Some(node1.item_idx),
            forall|f: int, t: int, i: int|
                !(f == node1.layer_idx && t == node2.layer_idx && i == node1.item_idx)
                    && !(f == node2.layer_idx && t == node1.layer_idx && i == node2.item_idx)
                    ==> #[trigger] final(self).edge(f, t, i) == old(self).edge(f, t, i),
    {
        self.connect_oneway(node1, node2);
        self.connect_oneway(node2, node1);
    }

    /// Connect `start` to `end` without the back edge; used for nodes that
    /// are shared by several owners. Connecting to the identical target again
    /// is idempotent; connecting over a different target is a misuse and is
    /// excluded.
    pub fn connect_oneway<T1, T2>(&mut self, start: &NodeRef<'_, T1>, end: &NodeRef<'_, T2>)
        requires
            old(self).wf(),
            start.layer_idx < old(self).layer_count(),
            end.layer_idx < old(self).layer_count(),
            start.item_idx < usize::MAX,
            edge_free_or_same(
                old(self).edge(start.layer_idx as int, end.layer_idx as int, start.item_idx as int),
                end.item_idx,
            ),
        ensures
            final(self).wf(),
            final(self).layer_count() == old(self).layer_count(),
            final(self).edge(start.layer_idx as int, end.layer_idx as int, start.item_idx as int)
                == Some(end.item_idx),
            forall|f: int, t: int, i: int|
                !(f == start.layer_idx && t == end.layer_idx && i == start.item_idx)
                    ==> #[trigger] final(self).edge(f, t, i) == old(self).edge(f, t, i),
    {
        let from_l = start.layer_idx;
        let to_l = end.layer_idx;
        let edge_vec: &mut Vec<Option<usize>> = &mut self.edge_layers[from_l][to_l];
        let ghost orig: Seq<Option<usize>> = edge_vec@;
        // extend the edge vec when adding an edge past its current end;
        // the space is not allocated up front because it is likely unused
        if edge_vec.len() <= start.item_idx {
            while edge_vec.len() < start.item_idx
                invariant
                    edge_vec@.len() <= start.item_idx,
                    start.item_idx < usize::MAX,
                    orig.len() <= edge_vec@.len(),
                    forall|i: int|
                        0 <= i < orig.len() ==> #[trigger] edge_vec@[i] == orig[i],
                    forall|i: int|
                        orig.len() <= i < edge_vec@.len() ==> #[trigger] edge_vec@[i] is None,
                decreases start.item_idx - edge_vec@.len(),
            {
                edge_vec.push(None);
            }
            edge_vec.push(Some(end.item_idx));
        } else {
            edge_vec.set(start.item_idx, Some(end.item_idx));
        }
    }

    /// Look the neighbour of `node` up on `to_layer`: `Some` exactly when an
    /// edge from the node towards that layer exists.
    ///
    /// Every edge into `to_layer` is made from a node of that layer, so the
    /// stored index is in bounds; the caller knows this from how the edge was
    /// made.
    pub fn get_neighbor<'to, Fro, To>(
        &self,
        node: &NodeRef<'_, Fro>,
        to_layer: &'to Layer<To>,
    ) -> (r: Option<NodeRef<'to, To>>)
        requires
            self.wf(),
            node.layer_idx < self.layer_count(),
            to_layer.id() < self.layer_count(),
            edge_target_in(
                self.edge(node.layer_idx as int, to_layer.id() as int, node.item_idx as int),
                to_layer@.len(),
            ),
        ensures
            match r {
                Some(n) => {
                    &&& self.edge(node.layer_idx as int, to_layer.id() as int, node.item_idx as int)
                        == Some(n.item_idx)
                    &&& n.layer_idx == to_layer.id()
                    &&& n.item_idx < to_layer@.len()
                    &&& *n.item == to_layer@[n.item_idx as int]
                },
                None => self.edge(
                    node.layer_idx as int,
                    to_layer.id() as int,
                    node.item_idx as int,
                ) is None,
            },
    {
        let edge_layer: &Vec<Option<usize>> = &self.edge_layers[node.layer_idx][to_layer.index];
        if edge_layer.len() <= node.item_idx {
            None
        } else {
            match edge_layer[node.item_idx] {
                Some(to_id) => Some(
                    NodeRef {
                        item: &to_layer.content[to_id],
                        item_idx: to_id,
                        layer_idx: to_layer.index,
                    },
                ),
                None => None,
            }
        }
    }
}

impl Graph {
    /// Look the neighbour of `node` up on `to_layer` for writing: the same
    /// lookup as `get_neighbor`, handing out a mutable borrow of the
    /// neighbouring component.
    pub fn get_neighbor_mut<'to, Fro, To>(
        &self,
        node: &NodeRef<'_, Fro>,
        to_layer: &'to mut Layer<To>,
    ) -> (r: Option<&'to mut To>)
        requires
            self.wf(),
            node.layer_idx < self.layer_count(),
            old(to_layer).id() < self.layer_count(),
            edge_target_in(
                self.edge(node.layer_idx as int, old(to_layer).id() as int, node.item_idx as int),
                old(to_layer)@.len(),
            ),
        ensures
            final(to_layer).id() == old(to_layer).id(),
            match r {
                Some(item) => match self.edge(
                    node.layer_idx as int,
                    old(to_layer).id() as int,
                    node.item_idx as int,
                ) {
                    Some(idx) => *item == old(to_layer)@[idx as int] && final(to_layer)@ == old(
                        to_layer,
                    )@.update(idx as int, *final(item)),
                    None => false,
                },
                None => {
                    &&& self.edge(
                        node.layer_idx as int,
                        old(to_layer).id() as int,
                        node.item_idx as int,
                    ) is None
                    &&& final(to_layer)@ == old(to_layer)@
                },
            },
    {
        let edge_layer: &Vec<Option<usize>> = &self.edge_layers[node.layer_idx][to_layer.index];
        if edge_layer.len() <= node.item_idx {
            None
        } else {
            match edge_layer[node.item_idx] {
                Some(to_id) => Some(&mut to_layer.content[to_id]),
                None => None,
            }
        }
    }
}

/// True when an edge slot is empty or already holds the wanted target.
pub open spec fn edge_free_or_same(slot: Option<usize>, target: usize) -> bool {
    slot is None || slot == Some(target)
}

/// True when an edge slot, if filled, points below the given layer length.
pub open spec fn edge_target_in(slot: Option<usize>, len: nat) -> bool {
    match slot {
        Some(i) => i < len,
        None => true,
    }
}

/// An append-only store of components of one type, created by
/// `Graph::create_layer` and addressed by its stable id.
pub struct Layer<T> {
    index: usize,
    content: Vec<T>,
}

impl<T> Layer<T> {
    /// The layer id handed out at creation.
    pub closed spec fn id(&self) -> nat {
        self.index as nat
    }

    /// The components in insertion order.
    pub closed spec fn view(&self) -> Seq<T> {
        self.content@
    }

    /// Append a component; it is addressed by the index it gets here,
    /// which is the number of earlier insertions.
    pub fn push(&mut self, component: T) -> (node: NodeRef<'_, T>)
        requires
            old(self)@.len() < usize::MAX,
        ensures
            final(self)@ == old(self)@.push(component),
            final(self).id() == old(self).id(),
            node.layer_idx == old(self).id(),
            node.item_idx == old(self)@.len(),
            *node.item == component,
    {
        let id = self.content.len();
        self.content.push(component);

        NodeRef { item: &self.content[id], item_idx: id, layer_idx: self.index }
    }

    /// Borrow one component by index for writing.
    pub fn get_mut(&mut self, idx: usize) -> (item: &mut T)
        requires
            idx < old(self)@.len(),
        ensures
            *item == old(self)@[idx as int],
            final(self)@ == old(self)@.update(idx as int, *final(item)),
            final(self).id() == old(self).id(),
    {
        &mut self.content[idx]
    }

    /// Walk the layer in insertion order.
    pub fn iter(&self) -> (it: LayerIter<'_, T>)
        ensures
            it.layer == self,
            it.idx == 0,
    {
        LayerIter { layer: self, idx: 0 }
    }

    /// How many components the layer holds.
    pub fn len(&self) -> (n: usize)
        ensures
            n == self@.len(),
    {
        self.content.len()
    }

    /// Read one component by index.
    pub fn get(&self, idx: usize) -> (item: &T)
        requires
            idx < self@.len(),
        ensures
            *item == self@[idx as int],
    {
        &self.content[idx]
    }
}

/// A cursor over a layer; `next` yields the nodes in insertion order.
pub struct LayerIter<'a, T> {
    pub layer: &'a Layer<T>,
    pub idx: usize,
}

impl<'a, T> LayerIter<'a, T> {
    /// Yield the node at the cursor and move past it, `None` at the end.
    /// The node returned for position `i` is exactly the `i`-th insertion,
    /// so a full walk reproduces insertion order.
    pub fn next(&mut self) -> (r: Option<NodeRef<'a, T>>)
        ensures
            final(self).layer == old(self).layer,
            match r {
                Some(n) => {
                    &&& old(self).idx < old(self).layer@.len()
                    &&& final(self).idx == old(self).idx + 1
                    &&& n.layer_idx == old(self).layer.id()
                    &&& n.item_idx == old(self).idx
                    &&& *n.item == old(self).layer@[old(self).idx as int]
                },
                None => {
                    &&& old(self).idx >= old(self).layer@.len()
                    &&& final(self).idx == old(self).idx
                },
            },
    {
        if self.idx >= self.layer.content.len() {
            return None;
        }

        let item = NodeRef {
            item: &self.layer.content[self.idx],
            item_idx: self.idx,
            layer_idx: self.layer.index,
        };

        self.idx += 1;
        Some(item)
    }
}

/// A borrowed reference to a component in a layer, together with the indices
/// that address it in the graph.
pub struct NodeRef<'a, T> {
    pub item: &'a T,
    pub item_idx: usize,
    pub layer_idx: usize,
}

impl<'a, T> NodeRef<'a, T> {
    /// True when this reference addresses its own item inside `layer`.
    pub open spec fn lives_in(&self, layer: Layer<T>) -> bool {
        &&& self.layer_idx == layer.id()
        &&& self.item_idx < layer@.len()
        &&& *self.item == layer@[self.item_idx as int]
    }

    /// Drop the borrow and keep the indices, so the node can be stored.
    pub fn downgrade(self) -> (w: WeakNodeRef<T>)
        ensures
            w.layer_idx == self.layer_idx,
            w.item_idx == self.item_idx,
    {
        WeakNodeRef { layer_idx: self.layer_idx, item_idx: self.item_idx, _marker: PhantomData }
    }
}

/// A borrow-free node address. Upgrading it with any layer other than the
/// one the node came from is a misuse (the run-time build panics on it),
/// so it is excluded by contract.
pub struct WeakNodeRef<T> {
    pub layer_idx: usize,
    pub item_idx: usize,
    pub _marker: PhantomData<T>,
}

impl<T> WeakNodeRef<T> {
    /// Re-borrow the component this address points at.
    pub fn upgrade<'l>(&self, layer: &'l Layer<T>) -> (n: NodeRef<'l, T>)
        requires
            layer.id() == self.layer_idx,
            self.item_idx < layer@.len(),
        ensures
            n.layer_idx == self.layer_idx,
            n.item_idx == self.item_idx,
            *n.item == layer@[self.item_idx as int],
    {
        NodeRef {
            item: &layer.content[self.item_idx],
            item_idx: self.item_idx,
            layer_idx: layer.index,
        }
    }
}

/// After `connect(a, b)`, looking the neighbour of `a` up on `b`'s layer
/// finds exactly `b`: the edge written by `connect` is the one `get_neighbor`
/// reads, so the returned node carries `b`'s index and `b`'s item.
pub proof fn lemma_connect_then_get_neighbor<T>(
    g: Graph,
    a_layer: usize,
    a_item: usize,
    b_layer: usize,
    b_item: usize,
    to_layer: Layer<T>,
)
    requires
        g.wf(),
        a_layer < g.layer_count(),
        to_layer.id() == b_layer,
        b_item < to_layer@.len(),
        // what `connect(a, b)` just ensured about the forward edge:
        g.edge(a_layer as int, b_layer as int, a_item as int) == Some(b_item),
    ensures
        edge_target_in(g.edge(a_layer as int, b_layer as int, a_item as int), to_layer@.len()),
        // so `get_neighbor(a, to_layer)` returns a node `n` with
        // `n.item_idx == b_item` and `*n.item == to_layer@[b_item]`,
        // by `get_neighbor`'s postcondition:
        g.edge(a_layer as int, b_layer as int, a_item as int) matches Some(i)
            && i == b_item && to_layer@[i as int] == to_layer@[b_item as int],
{
}

/// Downgrading a node and upgrading the key with the originating layer gives
/// back a reference equal to the original: same layer id, same item index,
/// same item. `w` is constrained exactly by `downgrade`'s postcondition and
/// `m` exactly by `upgrade`'s.
pub proof fn lemma_downgrade_then_upgrade<T>(
    layer: Layer<T>,
    n: NodeRef<T>,
    w: WeakNodeRef<T>,
    m: NodeRef<T>,
)
    requires
        n.lives_in(layer),
        // what `n.downgrade()` ensured about `w`:
        w.layer_idx == n.layer_idx,
        w.item_idx == n.item_idx,
        // what `w.upgrade(&layer)` ensured about `m`:
        m.layer_idx == w.layer_idx,
        m.item_idx == w.item_idx,
        *m.item == layer@[w.item_idx as int],
    ensures
        m.layer_idx == n.layer_idx,
        m.item_idx == n.item_idx,
        *m.item == *n.item,
{
}

} // verus!
