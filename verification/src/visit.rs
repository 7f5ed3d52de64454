use vstd::prelude::*;

use crate::particle_quad_tree::ParticleQuadTree;
use crate::particle_quad_tree::QuadtreeNode;
use crate::particle_quad_tree::QuadtreePointValue;

verus! {

/// One visitor callback occurrence, in the order `visit` makes them.
#[derive(Clone, Copy, PartialEq, Eq, Structural, Debug)]
pub enum VisitEvent {
    Node,
    LeafNode,
    Element(usize),
}

/// The read-only extension point of the traversal (the renderer implements
/// it). Each implementation exposes its callback history as an abstract
/// event log, so that the order in which `visit` drives the callbacks is
/// part of its contract.
pub trait QuadtreeVisitor<T>: Sized {
    /// The callbacks received so far, as an abstract event log. The default
    /// (an always-empty log) satisfies no callback contract below: an
    /// implementation that wants its methods verified overrides it.
    open spec fn events(&self) -> Seq<VisitEvent> {
        Seq::empty()
    }

    /// Called once for each internal node, before its four children.
    fn visit_node(&mut self, tree: &ParticleQuadTree<T>)
        ensures
            final(self).events() == old(self).events().push(VisitEvent::Node),
    ;

    /// Called once for each leaf, with its full index list, before its
    /// elements.
    fn visit_leaf_node(&mut self, tree: &ParticleQuadTree<T>, element_indices: &Vec<usize>)
        ensures
            final(self).events() == old(self).events().push(VisitEvent::LeafNode),
    ;

    /// Called once per index held by a leaf, in list order.
    fn visit_element(&mut self, index: usize)
        ensures
            final(self).events() == old(self).events().push(VisitEvent::Element(index)),
    ;
}

impl<T: QuadtreePointValue> ParticleQuadTree<T> {
    /// The pre-order callback trace of a traversal: an internal node
    /// announces itself and then its children strictly in top-left,
    /// top-right, bottom-left, bottom-right order; a leaf announces itself
    /// and then each held index in list order.
    pub open spec fn spec_trace(self) -> Seq<VisitEvent>
        decreases self,
    {
        match self.node {
            QuadtreeNode::Leaf { element_indices } => {
                seq![VisitEvent::LeafNode] + Seq::new(
                    element_indices@.len(),
                    |k: int| VisitEvent::Element(element_indices@[k]),
                )
            },
            QuadtreeNode::Node { top_left, top_right, bottom_left, bottom_right } => {
                seq![VisitEvent::Node] + top_left.spec_trace() + top_right.spec_trace()
                    + bottom_left.spec_trace() + bottom_right.spec_trace()
            },
        }
    }

    /// Pre-order traversal: drives the visitor's callbacks in exactly the
    /// order of [`Self::spec_trace`], mutating nothing of the tree.
    #[verifier::loop_isolation(false)]
    pub fn visit<V: QuadtreeVisitor<T>>(&self, visitor: &mut V)
        ensures
            final(visitor).events() == old(visitor).events() + self.spec_trace(),
        decreases self.height(),
    {
        match &self.node {
            QuadtreeNode::Node { top_left, top_right, bottom_left, bottom_right } => {
                visitor.visit_node(self);
                top_left.visit(visitor);
                top_right.visit(visitor);
                bottom_left.visit(visitor);
                bottom_right.visit(visitor);
                proof {
                    assert(visitor.events() =~= old(visitor).events() + self.spec_trace());
                }
            },
            QuadtreeNode::Leaf { element_indices } => {
                visitor.visit_leaf_node(self, element_indices);
                let ghost base = visitor.events();
                let ghost evs = Seq::new(
                    element_indices@.len(),
                    |k: int| VisitEvent::Element(element_indices@[k]),
                );
                proof {
                    assert(visitor.events() =~= base + evs.take(0));
                }
                let n = element_indices.len();
                let mut k: usize = 0;
                while k < n
                    invariant
                        k <= n,
                        visitor.events() == base + evs.take(k as int),
                    decreases n - k,
                {
                    let idx = element_indices[k];
                    visitor.visit_element(idx);
                    proof {
                        assert(evs.take(k as int + 1) =~= evs.take(k as int).push(
                            VisitEvent::Element(element_indices@[k as int]),
                        ));
                        assert(visitor.events() =~= base + evs.take(k as int + 1));
                    }
                    k = k + 1;
                }
                proof {
                    assert(evs.take(n as int) =~= evs);
                    assert(visitor.events() =~= old(visitor).events() + self.spec_trace());
                }
            },
        }
    }
}

/// A visitor that just records every callback; lets a caller observe the
/// traversal order concretely.
pub struct RecordingVisitor {
    pub log: Vec<VisitEvent>,
}

impl RecordingVisitor {
    /// An empty recording.
    pub fn new() -> (r: Self)
        ensures
            r.log@ == Seq::<VisitEvent>::empty(),
    {
        RecordingVisitor { log: Vec::new() }
    }
}

impl<T: QuadtreePointValue> QuadtreeVisitor<T> for RecordingVisitor {
    open spec fn events(&self) -> Seq<VisitEvent> {
        self.log@
    }

    fn visit_node(&mut self, _tree: &ParticleQuadTree<T>) {
        self.log.push(VisitEvent::Node);
    }

    fn visit_leaf_node(&mut self, _tree: &ParticleQuadTree<T>, _element_indices: &Vec<usize>) {
        self.log.push(VisitEvent::LeafNode);
    }

    fn visit_element(&mut self, index: usize) {
        self.log.push(VisitEvent::Element(index));
    }
}

} // verus!
