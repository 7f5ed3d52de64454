use vstd::prelude::*;
use vstd::multiset::Multiset;
use vstd::seq_lib::commutative_foldl;
use vstd::seq_lib::group_to_multiset_ensures;
use vstd::seq_lib::lemma_fold_left_permutation;

use crate::particle::Particle;
use crate::vector2d::Vector2D;
use crate::particle_quad_tree::lemma_quad_partition;
use crate::particle_quad_tree::ParticleQuadTree;
use crate::particle_quad_tree::QuadtreeNode;
use crate::particle_quad_tree::QuadtreePointValue;

verus! {

impl<T: QuadtreePointValue> ParticleQuadTree<T> {
    /// Mass conservation: a well-formed node's summary mass is exactly the
    /// masses of every particle inserted at or beneath it, summed in
    /// insertion order (the order matters only as much as the numeric
    /// type's addition does; an empty node's fold is zero).
    pub proof fn lemma_mass_conservation(self, es: Seq<Particle<T>>)
        requires
            self.wf(es),
        ensures
            self.summary_particle.mass == Self::mass_fold(self.inserted@, es),
    {
    }

    /// The mass fold is the plain left fold of the masses from zero, as
    /// soon as zero is an additive identity.
    proof fn lemma_mass_fold_is_fold_left(
        s: Seq<usize>,
        es: Seq<Particle<T>>,
        f: spec_fn(T, usize) -> T,
    )
        requires
            forall|t: T| #[trigger] T::zero_spec().add_spec(t) == t,
            forall|v: T, i: usize| #[trigger] f(v, i) == v.add_spec(es[i as int].mass),
        ensures
            Self::mass_fold(s, es) == s.fold_left(T::zero_spec(), f),
        decreases s.len(),
    {
        if s.len() > 0 {
            Self::lemma_mass_fold_is_fold_left(s.drop_last(), es, f);
        }
    }

    /// Mass totals are insertion-order independent whenever the numeric
    /// type's addition commutes (as ideal numbers do; floating-point
    /// addition misses the hypotheses only in rounding and signed-zero
    /// corners): two insertion histories holding the same indices fold to
    /// the same total mass.
    pub proof fn lemma_mass_order_independent(s1: Seq<usize>, s2: Seq<usize>, es: Seq<Particle<T>>)
        requires
            s1.to_multiset() == s2.to_multiset(),
            forall|t: T| #[trigger] T::zero_spec().add_spec(t) == t,
            forall|v: T, x: T, y: T| #[trigger] v.add_spec(x).add_spec(y) == v.add_spec(
                y,
            ).add_spec(x),
        ensures
            Self::mass_fold(s1, es) == Self::mass_fold(s2, es),
    {
        let f = (|v: T, i: usize| v.add_spec(es[i as int].mass));
        assert forall|v: T, x: usize, y: usize| #[trigger]
            f(f(v, x), y) == f(f(v, y), x) by {
            assert(f(v, x) == v.add_spec(es[x as int].mass));
            assert(f(v, y) == v.add_spec(es[y as int].mass));
        }
        assert(commutative_foldl(f));
        Self::lemma_mass_fold_is_fold_left(s1, es, f);
        Self::lemma_mass_fold_is_fold_left(s2, es, f);
        lemma_fold_left_permutation(s1, s2, f, T::zero_spec());
    }

    /// Position aggregate law: a well-formed node's summary position is the
    /// unweighted arithmetic mean of the inserted particles' positions (not
    /// mass-weighted), computed as the incremental running mean in
    /// insertion order; an empty node's summary sits at the node's center.
    pub proof fn lemma_position_aggregate(self, es: Seq<Particle<T>>)
        requires
            self.wf(es),
        ensures
            self.inserted@.len() > 0 ==> self.summary_particle.position == Self::mean_fold(
                self.inserted@,
                es,
            ),
            self.inserted@.len() == 0 ==> self.summary_particle.position == self.center,
    {
    }

    /// No leaf anywhere in the tree holds more indices than its capacity,
    /// and a node whose count ever exceeded its capacity is internal.
    pub open spec fn capacity_invariant(self) -> bool
        decreases self,
    {
        &&& (self.node is Leaf ==> self.leaf_inds().len() <= self.max_capacity
            && self.num_elements <= self.max_capacity)
        &&& match self.node {
            QuadtreeNode::Node { top_left, top_right, bottom_left, bottom_right } => {
                top_left.capacity_invariant() && top_right.capacity_invariant()
                    && bottom_left.capacity_invariant() && bottom_right.capacity_invariant()
            },
            QuadtreeNode::Leaf { .. } => true,
        }
    }

    /// Leaf capacity invariant: after any sequence of insertions (i.e. in
    /// any well-formed tree), no leaf exceeds `max_capacity`, and any node
    /// holding more elements than its capacity has become internal (with
    /// exactly four children, by the shape of the node body).
    pub proof fn lemma_leaf_capacity(self, es: Seq<Particle<T>>)
        requires
            self.wf(es),
        ensures
            self.capacity_invariant(),
            self.num_elements > self.max_capacity ==> self.node is Node,
        decreases self,
    {
        match self.node {
            QuadtreeNode::Leaf { .. } => {},
            QuadtreeNode::Node { top_left, top_right, bottom_left, bottom_right } => {
                top_left.lemma_leaf_capacity(es);
                top_right.lemma_leaf_capacity(es);
                bottom_left.lemma_leaf_capacity(es);
                bottom_right.lemma_leaf_capacity(es);
            },
        }
    }

    /// The indices held directly by the four children, as one multiset
    /// (empty for a leaf).
    pub open spec fn children_leaf_multiset(self) -> Multiset<usize> {
        match self.node {
            QuadtreeNode::Node { top_left, top_right, bottom_left, bottom_right } => {
                top_left.leaf_inds().to_multiset().add(top_right.leaf_inds().to_multiset()).add(
                    bottom_left.leaf_inds().to_multiset(),
                ).add(bottom_right.leaf_inds().to_multiset())
            },
            QuadtreeNode::Leaf { .. } => Multiset::empty(),
        }
    }

    /// Split partitioning completeness: when inserting into a full leaf
    /// splits it, the four children together hold exactly the indices the
    /// leaf held immediately before the split, plus the one being routed —
    /// no duplication, no loss.
    pub proof fn lemma_split_partition(pre: Self, post: Self, es: Seq<Particle<T>>, index: usize)
        requires
            pre.node is Leaf,
            pre.leaf_inds().len() >= pre.max_capacity,
            Self::insert_rel(pre, post, es, index),
        ensures
            post.node is Node,
            post.children_leaf_multiset() == pre.leaf_inds().to_multiset().insert(index),
    {
        broadcast use group_to_multiset_ensures;

        let s = pre.leaf_inds();
        let c = pre.center;
        let q = Self::quad_of_le(es[index as int].position, c);
        lemma_quad_partition(s, es, c);
        assert(Self::child_filter(s, es, c, q).push(index).to_multiset() =~= Self::child_filter(
            s,
            es,
            c,
            q,
        ).to_multiset().insert(index));
        assert(post.children_leaf_multiset() =~= s.to_multiset().insert(index));
    }

    /// Two-body symmetry, stated over the force formula: the delta-velocity
    /// each of two equal-mass bodies receives is the same scalar multiple of
    /// its own displacement toward the other — equal magnitude, opposite
    /// direction. Both deltas carry the one scalar
    /// `g * mass / |displacement|^2` built from the first body's view.
    pub open spec fn two_body_opposed(
        es: Seq<Particle<T>>,
        i0: usize,
        i1: usize,
        g: T,
        dt: T,
    ) -> bool {
        &&& Self::pair_delta(es[i0 as int], es[i1 as int], g, dt) == es[i1 as int].position.sub_spec(
            es[i0 as int].position,
        ).mul_spec(
            g.mul_spec(es[i1 as int].mass).div_spec(
                es[i1 as int].position.sub_spec(es[i0 as int].position).length_sq_spec(),
            ),
        ).mul_spec(dt)
        &&& Self::pair_delta(es[i1 as int], es[i0 as int], g, dt) == es[i0 as int].position.sub_spec(
            es[i1 as int].position,
        ).mul_spec(
            g.mul_spec(es[i1 as int].mass).div_spec(
                es[i1 as int].position.sub_spec(es[i0 as int].position).length_sq_spec(),
            ),
        ).mul_spec(dt)
    }

    /// Two-body symmetry: in a single leaf holding exactly two particles of
    /// equal mass, with no distant summaries, one tick gives each particle
    /// exactly the opposed delta-velocity of the other. The hypotheses name
    /// the numeric facts this rests on: the two opposite displacements have
    /// equal squared length, and zero is an additive identity (a
    /// floating-point type violates the latter only on a negative-zero
    /// component).
    pub proof fn lemma_two_body_symmetry(inds: Seq<usize>, es: Seq<Particle<T>>, g: T, dt: T)
        requires
            inds.len() == 2,
            es[inds[0] as int].mass == es[inds[1] as int].mass,
            es[inds[1] as int].position.sub_spec(es[inds[0] as int].position).length_sq_spec()
                == es[inds[0] as int].position.sub_spec(es[inds[1] as int].position).length_sq_spec(),
            forall|t: T| #[trigger] T::zero_spec().add_spec(t) == t,
        ensures
            Self::leaf_delta(inds, es, Seq::empty(), g, dt, 0) == Self::pair_delta(
                es[inds[0] as int],
                es[inds[1] as int],
                g,
                dt,
            ),
            Self::leaf_delta(inds, es, Seq::empty(), g, dt, 1) == Self::pair_delta(
                es[inds[1] as int],
                es[inds[0] as int],
                g,
                dt,
            ),
            Self::two_body_opposed(es, inds[0], inds[1], g, dt),
    {
        let p0 = es[inds[0] as int];
        let p1 = es[inds[1] as int];
        assert(Vector2D::<T>::zero_spec().add_spec(Self::pair_delta(p0, p1, g, dt))
            == Self::pair_delta(p0, p1, g, dt));
        assert(Vector2D::<T>::zero_spec().add_spec(Self::pair_delta(p1, p0, g, dt))
            == Self::pair_delta(p1, p0, g, dt));
        assert(Self::delta_peers(inds, es, 0, g, dt, 0) == Vector2D::<T>::zero_spec());
        assert(Self::delta_peers(inds, es, 0, g, dt, 1) == Vector2D::<T>::zero_spec());
        assert(Self::delta_peers(inds, es, 0, g, dt, 2) == Vector2D::<T>::zero_spec().add_spec(
            Self::pair_delta(p0, p1, g, dt),
        ));
        assert(Self::delta_peers(inds, es, 1, g, dt, 0) == Vector2D::<T>::zero_spec());
        assert(Self::delta_peers(inds, es, 1, g, dt, 1) == Vector2D::<T>::zero_spec().add_spec(
            Self::pair_delta(p1, p0, g, dt),
        ));
        assert(Self::delta_peers(inds, es, 1, g, dt, 2) == Self::delta_peers(
            inds,
            es,
            1,
            g,
            dt,
            1,
        ));
    }

    /// Observational equality of trees: same geometry, capacity, count,
    /// history and summary at every node, the same shape, and the same
    /// index list (compared by content) in every leaf.
    pub open spec fn congruent(a: Self, b: Self) -> bool
        decreases a,
    {
        &&& b.center == a.center
        &&& b.width == a.width
        &&& b.height == a.height
        &&& b.max_capacity == a.max_capacity
        &&& b.num_elements == a.num_elements
        &&& b.inserted@ == a.inserted@
        &&& b.summary_particle == a.summary_particle
        &&& match (a.node, b.node) {
            (
                QuadtreeNode::Leaf { element_indices: x },
                QuadtreeNode::Leaf { element_indices: y },
            ) => x@ == y@,
            (
                QuadtreeNode::Node {
                    top_left: atl,
                    top_right: atr,
                    bottom_left: abl,
                    bottom_right: abr,
                },
                QuadtreeNode::Node {
                    top_left: btl,
                    top_right: btr,
                    bottom_left: bbl,
                    bottom_right: bbr,
                },
            ) => {
                Self::congruent(*atl, *btl) && Self::congruent(*atr, *btr) && Self::congruent(
                    *abl,
                    *bbl,
                ) && Self::congruent(*abr, *bbr)
            },
            _ => false,
        }
    }

    /// Every tree is congruent to itself.
    pub proof fn lemma_congruent_refl(a: Self)
        ensures
            Self::congruent(a, a),
        decreases a,
    {
        match a.node {
            QuadtreeNode::Leaf { .. } => {},
            QuadtreeNode::Node { top_left, top_right, bottom_left, bottom_right } => {
                Self::lemma_congruent_refl(*top_left);
                Self::lemma_congruent_refl(*top_right);
                Self::lemma_congruent_refl(*bottom_left);
                Self::lemma_congruent_refl(*bottom_right);
            },
        }
    }

    /// Determinism of insertion: the insertion contract is functional — any
    /// two outcomes of inserting the same index into the same tree over the
    /// same buffer are observationally the same tree.
    pub proof fn lemma_insert_deterministic(
        pre: Self,
        a: Self,
        b: Self,
        es: Seq<Particle<T>>,
        index: usize,
    )
        requires
            Self::insert_rel(pre, a, es, index),
            Self::insert_rel(pre, b, es, index),
        ensures
            Self::congruent(a, b),
        decreases pre,
    {
        match pre.node {
            QuadtreeNode::Leaf { element_indices } => {
                if element_indices@.len() >= pre.max_capacity {
                    match (a.node, b.node) {
                        (
                            QuadtreeNode::Node {
                                top_left: atl,
                                top_right: atr,
                                bottom_left: abl,
                                bottom_right: abr,
                            },
                            QuadtreeNode::Node {
                                top_left: btl,
                                top_right: btr,
                                bottom_left: bbl,
                                bottom_right: bbr,
                            },
                        ) => {
                            assert(Self::congruent(*atl, *btl));
                            assert(Self::congruent(*atr, *btr));
                            assert(Self::congruent(*abl, *bbl));
                            assert(Self::congruent(*abr, *bbr));
                        },
                        _ => {},
                    }
                }
            },
            QuadtreeNode::Node { top_left, top_right, bottom_left, bottom_right } => {
                let q = Self::quad_of_le(es[index as int].position, pre.center);
                Self::lemma_congruent_refl(*top_left);
                Self::lemma_congruent_refl(*top_right);
                Self::lemma_congruent_refl(*bottom_left);
                Self::lemma_congruent_refl(*bottom_right);
                match (a.node, b.node) {
                    (
                        QuadtreeNode::Node {
                            top_left: atl,
                            top_right: atr,
                            bottom_left: abl,
                            bottom_right: abr,
                        },
                        QuadtreeNode::Node {
                            top_left: btl,
                            top_right: btr,
                            bottom_left: bbl,
                            bottom_right: bbr,
                        },
                    ) => {
                        if q == (true, true) {
                            Self::lemma_insert_deterministic(*top_left, *atl, *btl, es, index);
                        } else if q == (false, true) {
                            Self::lemma_insert_deterministic(*top_right, *atr, *btr, es, index);
                        } else if q == (true, false) {
                            Self::lemma_insert_deterministic(*bottom_left, *abl, *bbl, es, index);
                        } else {
                            Self::lemma_insert_deterministic(*bottom_right, *abr, *bbr, es, index);
                        }
                    },
                    _ => {},
                }
            },
        }
    }

    /// Determinism: the buffer after a tick is a function of the tree, the
    /// pre-tick buffer, the gravitational constant and the time step alone;
    /// two runs from identical inputs yield identical particle states.
    pub proof fn lemma_tick_deterministic(
        t1: Self,
        t2: Self,
        es1: Seq<Particle<T>>,
        es2: Seq<Particle<T>>,
        g: T,
        dt: T,
    )
        requires
            t1 == t2,
            es1 == es2,
        ensures
            t1.spec_tick(es1, g, dt, Seq::empty()) == t2.spec_tick(es2, g, dt, Seq::empty()),
    {
    }
}

} // verus!
