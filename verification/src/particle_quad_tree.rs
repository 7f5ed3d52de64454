use vstd::prelude::*;
use vstd::multiset::Multiset;
use vstd::seq_lib::group_to_multiset_ensures;

use crate::particle::Particle;
use crate::vector2d::Vector2D;

verus! {

/// The numeric domain of the simulation.
///
/// Every executable operation is pinned to a spec counterpart, so the exact
/// arithmetic of the simulation (including its quirks, such as the
/// displacement-scaled force term) is visible in every contract. An
/// implementation decides what the operations mean; `from` converts an
/// element count for the running positional mean.
pub trait QuadtreePointValue: Sized + Copy {
    /// What `add` returns.
    spec fn add_spec(self, rhs: Self) -> Self;

    /// What `sub` returns.
    spec fn sub_spec(self, rhs: Self) -> Self;

    /// What `mul` returns.
    spec fn mul_spec(self, rhs: Self) -> Self;

    /// What `div` returns.
    spec fn div_spec(self, rhs: Self) -> Self;

    /// What `le` returns.
    spec fn le_spec(self, rhs: Self) -> bool;

    /// What `lt` returns.
    spec fn lt_spec(self, rhs: Self) -> bool;

    /// What `zero` returns.
    spec fn zero_spec() -> Self;

    /// What `from` returns.
    spec fn from_spec(value: usize) -> Self;

    fn add(self, rhs: Self) -> (r: Self)
        ensures
            r == self.add_spec(rhs),
    ;

    fn sub(self, rhs: Self) -> (r: Self)
        ensures
            r == self.sub_spec(rhs),
    ;

    fn mul(self, rhs: Self) -> (r: Self)
        ensures
            r == self.mul_spec(rhs),
    ;

    /// Division; an implementation must be total (it decides what a zero
    /// divisor yields, e.g. an infinity or a fixed value), since degenerate
    /// zero-distance force terms divide by zero and propagate.
    fn div(self, rhs: Self) -> (r: Self)
        ensures
            r == self.div_spec(rhs),
    ;

    fn le(self, rhs: Self) -> (r: bool)
        ensures
            r == self.le_spec(rhs),
    ;

    fn lt(self, rhs: Self) -> (r: bool)
        ensures
            r == self.lt_spec(rhs),
    ;

    fn zero() -> (r: Self)
        ensures
            r == Self::zero_spec(),
    ;

    /// Conversion from an element count.
    fn from(value: usize) -> (r: Self)
        ensures
            r == Self::from_spec(value),
    ;
}

/// A 4-ary spatial index over a bounding region.
///
/// Each node is either a leaf holding particle indices or an internal node
/// holding four child quadrants, and carries a running summary particle:
/// the unweighted arithmetic mean of the positions and the total mass of
/// everything inserted at or beneath it. `inserted` is the ghost history of
/// indices inserted into this node, in order; the well-formedness predicate
/// [`Self::wf`] ties the summary to a fold over that history.
pub struct ParticleQuadTree<T> {
    pub center: Vector2D<T>,
    pub summary_particle: Particle<T>,
    pub width: T,
    pub height: T,
    pub max_capacity: usize,
    pub num_elements: usize,
    pub inserted: Ghost<Seq<usize>>,
    pub node: QuadtreeNode<T>,
}

/// The body of a tree node: four quadrant children, or a list of indices
/// into the external particle buffer.
pub enum QuadtreeNode<T> {
    Node {
        top_left: Box<ParticleQuadTree<T>>,
        top_right: Box<ParticleQuadTree<T>>,
        bottom_left: Box<ParticleQuadTree<T>>,
        bottom_right: Box<ParticleQuadTree<T>>,
    },
    Leaf { element_indices: Vec<usize> },
}

impl<T: QuadtreePointValue> ParticleQuadTree<T> {
    /// Structural height of the tree; a termination measure.
    pub open spec fn height(self) -> nat
        decreases self,
    {
        match self.node {
            QuadtreeNode::Leaf { .. } => 0,
            QuadtreeNode::Node { top_left, top_right, bottom_left, bottom_right } => {
                1 + top_left.height() + top_right.height() + bottom_left.height()
                    + bottom_right.height()
            },
        }
    }

    /// The indices held directly by this node, if it is a leaf.
    pub open spec fn leaf_inds(self) -> Seq<usize> {
        match self.node {
            QuadtreeNode::Leaf { element_indices } => element_indices@,
            QuadtreeNode::Node { .. } => Seq::empty(),
        }
    }

    /// The quadrant a position is routed to on ordinary insertion:
    /// `(x <= cx, y <= cy)`, i.e. `(left, top)`.
    pub open spec fn quad_of_le(p: Vector2D<T>, c: Vector2D<T>) -> (bool, bool) {
        (p.x.le_spec(c.x), p.y.le_spec(c.y))
    }

    /// The quadrant a position is routed to when a split redistributes the
    /// elements of a full leaf: `(x < cx, y < cy)`, i.e. `(left, top)`.
    /// The strict comparison here against the non-strict one above is an
    /// inherited routing policy, reproduced deliberately.
    pub open spec fn quad_of_lt(p: Vector2D<T>, c: Vector2D<T>) -> (bool, bool) {
        (p.x.lt_spec(c.x), p.y.lt_spec(c.y))
    }

    /// Total mass of the particles behind a sequence of indices, summed in
    /// sequence order starting from the first particle's mass.
    pub open spec fn mass_fold(s: Seq<usize>, es: Seq<Particle<T>>) -> T
        decreases s.len(),
    {
        if s.len() <= 0 {
            T::zero_spec()
        } else if s.len() == 1 {
            es[s[0] as int].mass
        } else {
            Self::mass_fold(s.drop_last(), es).add_spec(es[s.last() as int].mass)
        }
    }

    /// Running unweighted mean of the positions behind a sequence of
    /// indices, folded in sequence order exactly as insertion computes it:
    /// `mean' = (mean * n + p) / (n + 1)` componentwise.
    pub open spec fn mean_fold(s: Seq<usize>, es: Seq<Particle<T>>) -> Vector2D<T>
        decreases s.len(),
    {
        if s.len() <= 0 {
            Vector2D::zero_spec()
        } else if s.len() == 1 {
            es[s[0] as int].position
        } else {
            let prev = Self::mean_fold(s.drop_last(), es);
            let p = es[s.last() as int].position;
            let n = T::from_spec((s.len() - 1) as usize);
            let n1 = T::from_spec(s.len() as usize);
            Vector2D {
                x: prev.x.mul_spec(n).add_spec(p.x).div_spec(n1),
                y: prev.y.mul_spec(n).add_spec(p.y).div_spec(n1),
            }
        }
    }

    /// The node's summary particle is exactly the aggregate of its ghost
    /// insertion history: unweighted positional mean and total mass, with
    /// untouched (zero) velocity and radius. An empty node's summary sits at
    /// the node's center with zero mass.
    pub open spec fn summary_wf(self, es: Seq<Particle<T>>) -> bool {
        &&& self.num_elements == self.inserted@.len()
        &&& self.summary_particle.velocity == Vector2D::<T>::zero_spec()
        &&& self.summary_particle.radius == T::zero_spec()
        &&& if self.inserted@.len() == 0 {
            self.summary_particle.position == self.center && self.summary_particle.mass
                == T::zero_spec()
        } else {
            self.summary_particle.position == Self::mean_fold(self.inserted@, es)
                && self.summary_particle.mass == Self::mass_fold(self.inserted@, es)
        }
    }

    /// How one insertion updates the summary particle: the first particle
    /// replaces the placeholder outright; later ones extend the running mean
    /// and add their mass.
    pub open spec fn updated_summary(pre: Self, e: Particle<T>) -> Particle<T> {
        if pre.num_elements == 0 {
            Particle {
                position: e.position,
                velocity: pre.summary_particle.velocity,
                radius: pre.summary_particle.radius,
                mass: e.mass,
            }
        } else {
            let n = T::from_spec(pre.num_elements);
            let n1 = T::from_spec((pre.num_elements + 1) as usize);
            Particle {
                position: Vector2D {
                    x: pre.summary_particle.position.x.mul_spec(n).add_spec(
                        e.position.x,
                    ).div_spec(n1),
                    y: pre.summary_particle.position.y.mul_spec(n).add_spec(
                        e.position.y,
                    ).div_spec(n1),
                },
                velocity: pre.summary_particle.velocity,
                radius: pre.summary_particle.radius,
                mass: pre.summary_particle.mass.add_spec(e.mass),
            }
        }
    }

    /// Width and height of the children created by a split:
    /// `(parent + 2) / 2`, slightly more than half to absorb boundary noise
    /// in the routing comparisons.
    pub open spec fn split_half(self) -> (T, T) {
        let two = T::from_spec(2);
        (self.width.add_spec(two).div_spec(two), self.height.add_spec(two).div_spec(two))
    }

    /// The center of the child quadrant `q = (left, top)`: the parent
    /// center offset by a quarter of the (inflated) parent extent.
    pub open spec fn child_center(self, q: (bool, bool)) -> Vector2D<T> {
        let two = T::from_spec(2);
        let (half_w, half_h) = self.split_half();
        let qw = half_w.div_spec(two);
        let qh = half_h.div_spec(two);
        Vector2D {
            x: if q.0 {
                self.center.x.sub_spec(qw)
            } else {
                self.center.x.add_spec(qw)
            },
            y: if q.1 {
                self.center.y.sub_spec(qh)
            } else {
                self.center.y.add_spec(qh)
            },
        }
    }

    /// The indices of `s` that a split redistributes into the child
    /// quadrant `q`, by the strict comparison, in order.
    pub open spec fn child_filter(
        s: Seq<usize>,
        es: Seq<Particle<T>>,
        c: Vector2D<T>,
        q: (bool, bool),
    ) -> Seq<usize>
        decreases s.len(),
    {
        if s.len() == 0 {
            Seq::empty()
        } else {
            let rest = Self::child_filter(s.drop_last(), es, c, q);
            if Self::quad_of_lt(es[s.last() as int].position, c) == q {
                rest.push(s.last())
            } else {
                rest
            }
        }
    }

    /// What the child quadrant `q_child` holds after a split triggered by
    /// inserting `index`: the redistributed indices, plus `index` itself if
    /// its non-strict routing picks this quadrant.
    pub open spec fn routed(
        s: Seq<usize>,
        es: Seq<Particle<T>>,
        c: Vector2D<T>,
        q_child: (bool, bool),
        index: usize,
        q_index: (bool, bool),
    ) -> Seq<usize> {
        let base = Self::child_filter(s, es, c, q_child);
        if q_index == q_child {
            base.push(index)
        } else {
            base
        }
    }

    /// A freshly split-off child: a leaf with the given geometry and
    /// capacity whose contents, history and summary all reflect exactly the
    /// index sequence `s`.
    pub open spec fn fresh_child_rel(
        child: Self,
        cap: usize,
        center: Vector2D<T>,
        w: T,
        h: T,
        s: Seq<usize>,
        es: Seq<Particle<T>>,
    ) -> bool {
        &&& child.center == center
        &&& child.width == w
        &&& child.height == h
        &&& child.max_capacity == cap
        &&& child.num_elements == s.len()
        &&& child.inserted@ == s
        &&& child.node is Leaf
        &&& child.leaf_inds() == s
        &&& child.summary_wf(es)
    }

    /// The four children produced by splitting the full leaf `pre` while
    /// inserting `index`: quarter-offset centers, inflated half extents, and
    /// contents given by the strict redistribution plus the routed `index`.
    pub open spec fn split_children_rel(
        pre: Self,
        post: Self,
        es: Seq<Particle<T>>,
        index: usize,
    ) -> bool {
        let (half_w, half_h) = pre.split_half();
        let q = Self::quad_of_le(es[index as int].position, pre.center);
        let s = pre.leaf_inds();
        match post.node {
            QuadtreeNode::Node { top_left, top_right, bottom_left, bottom_right } => {
                &&& Self::fresh_child_rel(
                    *top_left,
                    pre.max_capacity,
                    pre.child_center((true, true)),
                    half_w,
                    half_h,
                    Self::routed(s, es, pre.center, (true, true), index, q),
                    es,
                )
                &&& Self::fresh_child_rel(
                    *top_right,
                    pre.max_capacity,
                    pre.child_center((false, true)),
                    half_w,
                    half_h,
                    Self::routed(s, es, pre.center, (false, true), index, q),
                    es,
                )
                &&& Self::fresh_child_rel(
                    *bottom_left,
                    pre.max_capacity,
                    pre.child_center((true, false)),
                    half_w,
                    half_h,
                    Self::routed(s, es, pre.center, (true, false), index, q),
                    es,
                )
                &&& Self::fresh_child_rel(
                    *bottom_right,
                    pre.max_capacity,
                    pre.child_center((false, false)),
                    half_w,
                    half_h,
                    Self::routed(s, es, pre.center, (false, false), index, q),
                    es,
                )
            },
            QuadtreeNode::Leaf { .. } => false,
        }
    }

    /// Exactly how one insertion transforms a node: summary, count and
    /// history always advance by the inserted element; a leaf with room
    /// appends; a full leaf splits; an internal node routes into exactly one
    /// child (by the non-strict comparison) and leaves the other three
    /// untouched.
    pub open spec fn insert_rel(pre: Self, post: Self, es: Seq<Particle<T>>, index: usize) -> bool
        decreases pre,
    {
        &&& post.center == pre.center
        &&& post.width == pre.width
        &&& post.height == pre.height
        &&& post.max_capacity == pre.max_capacity
        &&& post.num_elements == pre.num_elements + 1
        &&& post.inserted@ == pre.inserted@.push(index)
        &&& post.summary_particle == Self::updated_summary(pre, es[index as int])
        &&& match pre.node {
            QuadtreeNode::Leaf { element_indices } => {
                if element_indices@.len() < pre.max_capacity {
                    post.node is Leaf && post.leaf_inds() == element_indices@.push(index)
                } else {
                    Self::split_children_rel(pre, post, es, index)
                }
            },
            QuadtreeNode::Node { top_left, top_right, bottom_left, bottom_right } => {
                let q = Self::quad_of_le(es[index as int].position, pre.center);
                match post.node {
                    QuadtreeNode::Node {
                        top_left: ptl,
                        top_right: ptr,
                        bottom_left: pbl,
                        bottom_right: pbr,
                    } => {
                        if q == (true, true) {
                            Self::insert_rel(*top_left, *ptl, es, index) && ptr == top_right
                                && pbl == bottom_left && pbr == bottom_right
                        } else if q == (false, true) {
                            Self::insert_rel(*top_right, *ptr, es, index) && ptl == top_left
                                && pbl == bottom_left && pbr == bottom_right
                        } else if q == (true, false) {
                            Self::insert_rel(*bottom_left, *pbl, es, index) && ptl == top_left
                                && ptr == top_right && pbr == bottom_right
                        } else {
                            Self::insert_rel(*bottom_right, *pbr, es, index) && ptl == top_left
                                && ptr == top_right && pbl == bottom_left
                        }
                    },
                    QuadtreeNode::Leaf { .. } => false,
                }
            },
        }
    }

    /// Well-formedness: capacities are sane, the count matches the history,
    /// every recorded index points into the buffer, the summary aggregates
    /// the history, a leaf holds exactly its history (never over capacity),
    /// and an internal node's children are well-formed quarter quadrants
    /// that together hold exactly the parent's history.
    pub open spec fn wf(self, es: Seq<Particle<T>>) -> bool
        decreases self,
    {
        &&& 1 <= self.max_capacity < usize::MAX
        &&& forall|k: int| 0 <= k < self.inserted@.len() ==> self.inserted@[k] < es.len()
        &&& self.summary_wf(es)
        &&& match self.node {
            QuadtreeNode::Leaf { element_indices } => {
                &&& element_indices@ == self.inserted@
                &&& element_indices@.len() <= self.max_capacity
            },
            QuadtreeNode::Node { top_left, top_right, bottom_left, bottom_right } => {
                let (half_w, half_h) = self.split_half();
                &&& top_left.wf(es)
                &&& top_right.wf(es)
                &&& bottom_left.wf(es)
                &&& bottom_right.wf(es)
                &&& top_left.center == self.child_center((true, true))
                &&& top_right.center == self.child_center((false, true))
                &&& bottom_left.center == self.child_center((true, false))
                &&& bottom_right.center == self.child_center((false, false))
                &&& top_left.width == half_w && top_right.width == half_w && bottom_left.width
                    == half_w && bottom_right.width == half_w
                &&& top_left.height == half_h && top_right.height == half_h && bottom_left.height
                    == half_h && bottom_right.height == half_h
                &&& top_left.max_capacity == self.max_capacity && top_right.max_capacity
                    == self.max_capacity && bottom_left.max_capacity == self.max_capacity
                    && bottom_right.max_capacity == self.max_capacity
                &&& self.num_elements == top_left.num_elements + top_right.num_elements
                    + bottom_left.num_elements + bottom_right.num_elements
                &&& self.inserted@.to_multiset() == top_left.inserted@.to_multiset().add(
                    top_right.inserted@.to_multiset(),
                ).add(bottom_left.inserted@.to_multiset()).add(bottom_right.inserted@.to_multiset())
            },
        }
    }

    /// Insertion of `index` reaches a resting place: on the routing path,
    /// every full leaf it meets has at least one element that the strict
    /// redistribution sends to a different quadrant than the one the
    /// non-strict routing picks for `index`, so the split leaves room. If
    /// every element crowded into that same quadrant, the split cascade need
    /// not terminate, so such insertions are excluded.
    pub open spec fn can_insert(self, es: Seq<Particle<T>>, index: usize) -> bool
        decreases self,
    {
        match self.node {
            QuadtreeNode::Leaf { element_indices } => {
                ||| element_indices@.len() < self.max_capacity
                ||| exists|k: int|
                    0 <= k < element_indices@.len() && Self::quad_of_lt(
                        es[#[trigger] element_indices@[k] as int].position,
                        self.center,
                    ) != Self::quad_of_le(es[index as int].position, self.center)
            },
            QuadtreeNode::Node { top_left, top_right, bottom_left, bottom_right } => {
                let q = Self::quad_of_le(es[index as int].position, self.center);
                if q == (true, true) {
                    top_left.can_insert(es, index)
                } else if q == (false, true) {
                    top_right.can_insert(es, index)
                } else if q == (true, false) {
                    bottom_left.can_insert(es, index)
                } else {
                    bottom_right.can_insert(es, index)
                }
            },
        }
    }

    /// Creates an empty leaf node over the given bounding region, with the
    /// placeholder summary sitting at the center with zero mass.
    pub fn new(center: Vector2D<T>, width: T, height: T, max_capacity: usize) -> (tree: Self)
        requires
            1 <= max_capacity < usize::MAX,
        ensures
            tree.center == center,
            tree.width == width,
            tree.height == height,
            tree.max_capacity == max_capacity,
            tree.num_elements == 0,
            tree.inserted@ == Seq::<usize>::empty(),
            tree.node is Leaf,
            tree.leaf_inds() == Seq::<usize>::empty(),
            tree.summary_particle == (Particle {
                position: center,
                velocity: Vector2D::<T>::zero_spec(),
                radius: T::zero_spec(),
                mass: T::zero_spec(),
            }),
            forall|es: Seq<Particle<T>>| #[trigger] tree.wf(es),
            forall|es: Seq<Particle<T>>, index: usize| #[trigger] tree.can_insert(es, index),
    {
        let tree = ParticleQuadTree {
            center,
            summary_particle: Particle {
                position: center,
                velocity: Vector2D::zero(),
                radius: T::zero(),
                mass: T::zero(),
            },
            width,
            height,
            max_capacity,
            num_elements: 0,
            inserted: Ghost(Seq::empty()),
            node: QuadtreeNode::Leaf { element_indices: Vec::with_capacity(max_capacity) },
        };
        tree
    }

    /// Advances the summary particle, the element count and the ghost
    /// history by one inserted element, leaving the node body untouched.
    fn record_insert(&mut self, element: Particle<T>, index: usize)
        requires
            old(self).num_elements < usize::MAX,
        ensures
            final(self).center == old(self).center,
            final(self).width == old(self).width,
            final(self).height == old(self).height,
            final(self).max_capacity == old(self).max_capacity,
            final(self).node == old(self).node,
            final(self).num_elements == old(self).num_elements + 1,
            final(self).inserted@ == old(self).inserted@.push(index),
            final(self).summary_particle == Self::updated_summary(*old(self), element),
    {
        if self.num_elements == 0 {
            self.summary_particle = Particle {
                position: element.position,
                velocity: self.summary_particle.velocity,
                radius: self.summary_particle.radius,
                mass: element.mass,
            };
            self.num_elements = 1;
        } else {
            let n = T::from(self.num_elements);
            let n_plus = T::from(self.num_elements + 1);
            self.summary_particle = Particle {
                position: Vector2D {
                    x: self.summary_particle.position.x.mul(n).add(element.position.x).div(n_plus),
                    y: self.summary_particle.position.y.mul(n).add(element.position.y).div(n_plus),
                },
                velocity: self.summary_particle.velocity,
                radius: self.summary_particle.radius,
                mass: self.summary_particle.mass.add(element.mass),
            };
            self.num_elements = self.num_elements + 1;
        }
        self.inserted = Ghost(self.inserted@.push(index));
    }

    /// Appends one element to a leaf node (summary, count, history and
    /// index list), without any split logic.
    fn leaf_push(&mut self, elements: &Vec<Particle<T>>, index: usize)
        requires
            index < elements.len(),
            old(self).num_elements < usize::MAX,
            old(self).node is Leaf,
        ensures
            final(self).center == old(self).center,
            final(self).width == old(self).width,
            final(self).height == old(self).height,
            final(self).max_capacity == old(self).max_capacity,
            final(self).num_elements == old(self).num_elements + 1,
            final(self).inserted@ == old(self).inserted@.push(index),
            final(self).summary_particle == Self::updated_summary(
                *old(self),
                elements@[index as int],
            ),
            final(self).node is Leaf,
            final(self).leaf_inds() == old(self).leaf_inds().push(index),
            old(self).summary_wf(elements@) ==> final(self).summary_wf(elements@),
    {
        let element = elements[index];
        self.record_insert(element, index);
        let mut node_local = QuadtreeNode::Leaf { element_indices: Vec::new() };
        core::mem::swap(&mut node_local, &mut self.node);
        match node_local {
            QuadtreeNode::Leaf { mut element_indices } => {
                element_indices.push(index);
                self.node = QuadtreeNode::Leaf { element_indices };
            },
            QuadtreeNode::Node { top_left, top_right, bottom_left, bottom_right } => {
                self.node = QuadtreeNode::Node { top_left, top_right, bottom_left, bottom_right };
            },
        }
        proof {
            if old(self).summary_wf(elements@) {
                Self::lemma_summary_step(*old(self), *self, elements@, index);
            }
        }
    }

    /// One recorded insertion preserves the summary aggregation invariant.
    proof fn lemma_summary_step(pre: Self, post: Self, es: Seq<Particle<T>>, index: usize)
        requires
            pre.summary_wf(es),
            index < es.len(),
            pre.num_elements < usize::MAX,
            post.center == pre.center,
            post.num_elements == pre.num_elements + 1,
            post.inserted@ == pre.inserted@.push(index),
            post.summary_particle == Self::updated_summary(pre, es[index as int]),
        ensures
            post.summary_wf(es),
    {
        let s = pre.inserted@;
        let s2 = post.inserted@;
        assert(s2.drop_last() =~= s);
        assert(s2.last() == index);
        if s.len() == 0 {
            assert(s2.len() == 1);
            assert(s2[0] == index);
        } else {
            assert((s2.len() - 1) as usize == pre.num_elements);
            assert(s2.len() as usize == (pre.num_elements + 1) as usize);
            assert(Self::mass_fold(s2, es) == Self::mass_fold(s, es).add_spec(
                es[index as int].mass,
            ));
        }
    }

    /// Inserts the particle at `index` of the buffer: the summary, count and
    /// history of every node on the routing path advance by that particle; a
    /// leaf with room appends the index; a full leaf splits into four
    /// quarter quadrants, redistributes its indices by the strict comparison
    /// and routes the new index by the non-strict one. The exact
    /// transformation is pinned by [`Self::insert_rel`], and well-formedness
    /// is preserved.
    #[verifier::loop_isolation(false)]
    #[verifier::rlimit(100)]
    pub fn insert(&mut self, elements: &Vec<Particle<T>>, index: usize)
        requires
            index < elements.len(),
            old(self).num_elements < usize::MAX,
            old(self).wf(elements@),
            old(self).can_insert(elements@, index),
        ensures
            final(self).wf(elements@),
            Self::insert_rel(*old(self), *final(self), elements@, index),
        decreases old(self).height(),
    {
        broadcast use group_to_multiset_ensures;

        let ghost pre = *old(self);
        let ghost es = elements@;
        let element = elements[index];
        let cx = self.center.x;
        let cy = self.center.y;
        let cap = self.max_capacity;
        self.record_insert(element, index);
        proof {
            Self::lemma_summary_step(pre, *self, es, index);
            assert(forall|k: int|
                0 <= k < self.inserted@.len() ==> self.inserted@[k] < es.len());
        }
        let mut node_local = QuadtreeNode::Leaf { element_indices: Vec::new() };
        core::mem::swap(&mut node_local, &mut self.node);
        match node_local {
            QuadtreeNode::Node {
                mut top_left,
                mut top_right,
                mut bottom_left,
                mut bottom_right,
            } => {
                let go_left = element.position.x.le(cx);
                let go_top = element.position.y.le(cy);
                proof {
                    assert((go_left, go_top) == Self::quad_of_le(es[index as int].position,
                        pre.center));
                }
                if go_left {
                    if go_top {
                        (&mut *top_left).insert(elements, index);
                    } else {
                        (&mut *bottom_left).insert(elements, index);
                    }
                } else {
                    if go_top {
                        (&mut *top_right).insert(elements, index);
                    } else {
                        (&mut *bottom_right).insert(elements, index);
                    }
                }
                proof {
                    assert((*top_left).wf(es));
                    assert((*top_right).wf(es));
                    assert((*bottom_left).wf(es));
                    assert((*bottom_right).wf(es));
                }
                self.node = QuadtreeNode::Node {
                    top_left,
                    top_right,
                    bottom_left,
                    bottom_right,
                };
                proof {
                    assert(pre.inserted@.push(index).to_multiset() =~= pre.inserted@.to_multiset()
                        .insert(index));
                    assert(self.inserted@.to_multiset() =~= match self.node {
                        QuadtreeNode::Node { top_left, top_right, bottom_left, bottom_right } => {
                            top_left.inserted@.to_multiset().add(
                                top_right.inserted@.to_multiset(),
                            ).add(bottom_left.inserted@.to_multiset()).add(
                                bottom_right.inserted@.to_multiset(),
                            )
                        },
                        QuadtreeNode::Leaf { .. } => Multiset::empty(),
                    });
                }
            },
            QuadtreeNode::Leaf { mut element_indices } => {
                if element_indices.len() < cap {
                    element_indices.push(index);
                    self.node = QuadtreeNode::Leaf { element_indices };
                } else {
                    // the leaf is full (exactly at capacity, by wf): split
                    let two = T::from(2);
                    let half_width = self.width.add(two).div(two);
                    let half_height = self.height.add(two).div(two);
                    let quarter_width = half_width.div(two);
                    let quarter_height = half_height.div(two);
                    let mut top_left = Box::new(
                        Self::new(
                            Vector2D { x: cx.sub(quarter_width), y: cy.sub(quarter_height) },
                            half_width,
                            half_height,
                            cap,
                        ),
                    );
                    let mut top_right = Box::new(
                        Self::new(
                            Vector2D { x: cx.add(quarter_width), y: cy.sub(quarter_height) },
                            half_width,
                            half_height,
                            cap,
                        ),
                    );
                    let mut bottom_left = Box::new(
                        Self::new(
                            Vector2D { x: cx.sub(quarter_width), y: cy.add(quarter_height) },
                            half_width,
                            half_height,
                            cap,
                        ),
                    );
                    let mut bottom_right = Box::new(
                        Self::new(
                            Vector2D { x: cx.add(quarter_width), y: cy.add(quarter_height) },
                            half_width,
                            half_height,
                            cap,
                        ),
                    );
                    let ghost inds = element_indices@;
                    let ghost c = pre.center;
                    proof {
                        assert(inds.take(0) =~= Seq::<usize>::empty());
                    }
                    let n = element_indices.len();
                    let mut k: usize = 0;
                    while k < n
                        invariant
                            k <= n,
                            Self::fresh_child_rel(
                                *top_left,
                                cap,
                                pre.child_center((true, true)),
                                pre.split_half().0,
                                pre.split_half().1,
                                Self::child_filter(inds.take(k as int), es, c, (true, true)),
                                es,
                            ),
                            Self::fresh_child_rel(
                                *top_right,
                                cap,
                                pre.child_center((false, true)),
                                pre.split_half().0,
                                pre.split_half().1,
                                Self::child_filter(inds.take(k as int), es, c, (false, true)),
                                es,
                            ),
                            Self::fresh_child_rel(
                                *bottom_left,
                                cap,
                                pre.child_center((true, false)),
                                pre.split_half().0,
                                pre.split_half().1,
                                Self::child_filter(inds.take(k as int), es, c, (true, false)),
                                es,
                            ),
                            Self::fresh_child_rel(
                                *bottom_right,
                                cap,
                                pre.child_center((false, false)),
                                pre.split_half().0,
                                pre.split_half().1,
                                Self::child_filter(inds.take(k as int), es, c, (false, false)),
                                es,
                            ),
                            top_left.num_elements + top_right.num_elements
                                + bottom_left.num_elements + bottom_right.num_elements == k,
                        decreases n - k,
                    {
                        let ei = element_indices[k];
                        let e = elements[ei];
                        let e_left = e.position.x.lt(cx);
                        let e_top = e.position.y.lt(cy);
                        proof {
                            assert(inds[k as int] == ei);
                            assert((e_left, e_top) == Self::quad_of_lt(es[ei as int].position, c));
                            assert(inds.take(k as int + 1) =~= inds.take(k as int).push(ei));
                            lemma_child_filter_push(inds.take(k as int), es, c, (true, true), ei);
                            lemma_child_filter_push(inds.take(k as int), es, c, (false, true), ei);
                            lemma_child_filter_push(inds.take(k as int), es, c, (true, false), ei);
                            lemma_child_filter_push(inds.take(k as int), es, c, (false, false), ei);
                        }
                        if e_left {
                            if e_top {
                                (&mut *top_left).leaf_push(elements, ei);
                            } else {
                                (&mut *bottom_left).leaf_push(elements, ei);
                            }
                        } else {
                            if e_top {
                                (&mut *top_right).leaf_push(elements, ei);
                            } else {
                                (&mut *bottom_right).leaf_push(elements, ei);
                            }
                        }
                        k = k + 1;
                    }
                    proof {
                        assert(inds.take(n as int) =~= inds);
                    }
                    // route the index being inserted, by the non-strict comparison
                    let go_left = element.position.x.le(cx);
                    let go_top = element.position.y.le(cy);
                    let ghost q = Self::quad_of_le(es[index as int].position, pre.center);
                    proof {
                        assert((go_left, go_top) == q);
                        let kk = choose|kk: int|
                            0 <= kk < inds.len() && Self::quad_of_lt(
                                es[inds[kk] as int].position,
                                pre.center,
                            ) != q;
                        lemma_child_filter_missing(inds, es, c, q, kk);
                    }
                    if go_left {
                        if go_top {
                            (&mut *top_left).leaf_push(elements, index);
                        } else {
                            (&mut *bottom_left).leaf_push(elements, index);
                        }
                    } else {
                        if go_top {
                            (&mut *top_right).leaf_push(elements, index);
                        } else {
                            (&mut *bottom_right).leaf_push(elements, index);
                        }
                    }
                    proof {
                        lemma_quad_partition(inds, es, c);
                        lemma_child_filter_bound(inds, es, c, (true, true), es.len());
                        lemma_child_filter_bound(inds, es, c, (false, true), es.len());
                        lemma_child_filter_bound(inds, es, c, (true, false), es.len());
                        lemma_child_filter_bound(inds, es, c, (false, false), es.len());
                        lemma_child_filter_len(inds, es, c, (true, true));
                        lemma_child_filter_len(inds, es, c, (false, true));
                        lemma_child_filter_len(inds, es, c, (true, false));
                        lemma_child_filter_len(inds, es, c, (false, false));
                        assert(inds.push(index).to_multiset() =~= inds.to_multiset().insert(
                            index,
                        ));
                        assert((*top_left).wf(es));
                        assert((*top_right).wf(es));
                        assert((*bottom_left).wf(es));
                        assert((*bottom_right).wf(es));
                    }
                    self.node = QuadtreeNode::Node {
                        top_left,
                        top_right,
                        bottom_left,
                        bottom_right,
                    };
                    proof {
                        assert(self.inserted@.to_multiset() =~= match self.node {
                            QuadtreeNode::Node {
                                top_left,
                                top_right,
                                bottom_left,
                                bottom_right,
                            } => {
                                top_left.inserted@.to_multiset().add(
                                    top_right.inserted@.to_multiset(),
                                ).add(bottom_left.inserted@.to_multiset()).add(
                                    bottom_right.inserted@.to_multiset(),
                                )
                            },
                            QuadtreeNode::Leaf { .. } => Multiset::empty(),
                        });
                    }
                }
            },
        }
    }
}

/// Redistribution filtering distributes over appending one index.
pub proof fn lemma_child_filter_push<T: QuadtreePointValue>(
    s: Seq<usize>,
    es: Seq<Particle<T>>,
    c: Vector2D<T>,
    q: (bool, bool),
    x: usize,
)
    ensures
        ParticleQuadTree::<T>::child_filter(s.push(x), es, c, q) == if
            ParticleQuadTree::<T>::quad_of_lt(es[x as int].position, c) == q {
            ParticleQuadTree::<T>::child_filter(s, es, c, q).push(x)
        } else {
            ParticleQuadTree::<T>::child_filter(s, es, c, q)
        },
{
    assert(s.push(x).drop_last() =~= s);
    assert(s.push(x).last() == x);
}

/// The redistribution filter never grows a sequence.
pub proof fn lemma_child_filter_len<T: QuadtreePointValue>(
    s: Seq<usize>,
    es: Seq<Particle<T>>,
    c: Vector2D<T>,
    q: (bool, bool),
)
    ensures
        ParticleQuadTree::<T>::child_filter(s, es, c, q).len() <= s.len(),
    decreases s.len(),
{
    if s.len() > 0 {
        lemma_child_filter_len(s.drop_last(), es, c, q);
    }
}

/// If some index of `s` is routed to a different quadrant than `q`, the
/// filter for `q` is strictly shorter than `s`.
pub proof fn lemma_child_filter_missing<T: QuadtreePointValue>(
    s: Seq<usize>,
    es: Seq<Particle<T>>,
    c: Vector2D<T>,
    q: (bool, bool),
    k: int,
)
    requires
        0 <= k < s.len(),
        ParticleQuadTree::<T>::quad_of_lt(es[s[k] as int].position, c) != q,
    ensures
        ParticleQuadTree::<T>::child_filter(s, es, c, q).len() < s.len(),
    decreases s.len(),
{
    lemma_child_filter_len(s.drop_last(), es, c, q);
    if k < s.len() - 1 {
        lemma_child_filter_missing(s.drop_last(), es, c, q, k);
    }
}

/// The redistribution filter keeps indices within their original bound.
pub proof fn lemma_child_filter_bound<T: QuadtreePointValue>(
    s: Seq<usize>,
    es: Seq<Particle<T>>,
    c: Vector2D<T>,
    q: (bool, bool),
    n: nat,
)
    requires
        forall|k: int| 0 <= k < s.len() ==> s[k] < n,
    ensures
        forall|k: int|
            0 <= k < ParticleQuadTree::<T>::child_filter(s, es, c, q).len()
                ==> ParticleQuadTree::<T>::child_filter(s, es, c, q)[k] < n,
    decreases s.len(),
{
    if s.len() > 0 {
        assert(forall|k: int| 0 <= k < s.drop_last().len() ==> s.drop_last()[k] < n);
        lemma_child_filter_bound(s.drop_last(), es, c, q, n);
        let sub = ParticleQuadTree::<T>::child_filter(s.drop_last(), es, c, q);
        if ParticleQuadTree::<T>::quad_of_lt(es[s.last() as int].position, c) == q {
            assert(forall|k: int|
                0 <= k < sub.push(s.last()).len() ==> sub.push(s.last())[k] < n);
        }
    }
}

/// The four quadrant filters of a split partition the redistributed
/// indices: together they hold exactly the original multiset.
pub proof fn lemma_quad_partition<T: QuadtreePointValue>(
    s: Seq<usize>,
    es: Seq<Particle<T>>,
    c: Vector2D<T>,
)
    ensures
        ParticleQuadTree::<T>::child_filter(s, es, c, (true, true)).to_multiset().add(
            ParticleQuadTree::<T>::child_filter(s, es, c, (false, true)).to_multiset(),
        ).add(ParticleQuadTree::<T>::child_filter(s, es, c, (true, false)).to_multiset()).add(
            ParticleQuadTree::<T>::child_filter(s, es, c, (false, false)).to_multiset(),
        ) == s.to_multiset(),
    decreases s.len(),
{
    broadcast use group_to_multiset_ensures;

    if s.len() == 0 {
        assert(s =~= Seq::<usize>::empty());
        assert(s.to_multiset() =~= Multiset::<usize>::empty());
        assert(ParticleQuadTree::<T>::child_filter(s, es, c, (true, true)).to_multiset().add(
            ParticleQuadTree::<T>::child_filter(s, es, c, (false, true)).to_multiset(),
        ).add(ParticleQuadTree::<T>::child_filter(s, es, c, (true, false)).to_multiset()).add(
            ParticleQuadTree::<T>::child_filter(s, es, c, (false, false)).to_multiset(),
        ) =~= s.to_multiset());
    } else {
        let t = s.drop_last();
        let x = s.last();
        lemma_quad_partition(t, es, c);
        assert(t.push(x) =~= s);
        assert(s.to_multiset() =~= t.to_multiset().insert(x));
        lemma_child_filter_push(t, es, c, (true, true), x);
        lemma_child_filter_push(t, es, c, (false, true), x);
        lemma_child_filter_push(t, es, c, (true, false), x);
        lemma_child_filter_push(t, es, c, (false, false), x);
        assert(ParticleQuadTree::<T>::child_filter(s, es, c, (true, true)).to_multiset().add(
            ParticleQuadTree::<T>::child_filter(s, es, c, (false, true)).to_multiset(),
        ).add(ParticleQuadTree::<T>::child_filter(s, es, c, (true, false)).to_multiset()).add(
            ParticleQuadTree::<T>::child_filter(s, es, c, (false, false)).to_multiset(),
        ) =~= s.to_multiset());
    }
}

} // verus!
