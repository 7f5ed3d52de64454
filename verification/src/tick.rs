use vstd::prelude::*;

use crate::particle::Particle;
use crate::particle_quad_tree::ParticleQuadTree;
use crate::particle_quad_tree::QuadtreeNode;
use crate::particle_quad_tree::QuadtreePointValue;
use crate::vector2d::Vector2D;

verus! {

impl<T: QuadtreePointValue> ParticleQuadTree<T> {
    /// The velocity contribution one body `p2` makes to `p1` in one tick:
    /// acceleration `g * m2 / |d|^2` scaled by the raw displacement `d` and
    /// the elapsed time. Scaling by the unnormalized displacement folds a
    /// `1/r` factor into the magnitude; this is the inherited force law,
    /// reproduced deliberately. A zero displacement divides by zero; what
    /// that yields is the numeric type's business and propagates.
    pub open spec fn pair_delta(p1: Particle<T>, p2: Particle<T>, g: T, dt: T) -> Vector2D<T> {
        let v_dir = p2.position.sub_spec(p1.position);
        let r_sq = v_dir.length_sq_spec();
        let a1 = g.mul_spec(p2.mass).div_spec(r_sq);
        v_dir.mul_spec(a1).mul_spec(dt)
    }

    /// Accumulated delta-velocity of leaf slot `i` from the first `j` leaf
    /// peers (skipping itself), in slot order, starting from zero.
    pub open spec fn delta_peers(
        inds: Seq<usize>,
        es: Seq<Particle<T>>,
        i: int,
        g: T,
        dt: T,
        j: int,
    ) -> Vector2D<T>
        decreases j,
    {
        if j <= 0 {
            Vector2D::zero_spec()
        } else {
            let prev = Self::delta_peers(inds, es, i, g, dt, j - 1);
            if j - 1 == i {
                prev
            } else {
                prev.add_spec(
                    Self::pair_delta(es[inds[i] as int], es[inds[j - 1] as int], g, dt),
                )
            }
        }
    }

    /// Accumulated delta-velocity from the first `j` distant summary
    /// particles, in list order, on top of `start`.
    pub open spec fn delta_sums(
        start: Vector2D<T>,
        sums: Seq<Particle<T>>,
        p1: Particle<T>,
        g: T,
        dt: T,
        j: int,
    ) -> Vector2D<T>
        decreases j,
    {
        if j <= 0 {
            start
        } else {
            Self::delta_sums(start, sums, p1, g, dt, j - 1).add_spec(
                Self::pair_delta(p1, sums[j - 1], g, dt),
            )
        }
    }

    /// Total delta-velocity of leaf slot `i`: the exact pairwise term over
    /// all co-resident peers, then the approximate term over all distant
    /// summaries, all read from the pre-tick snapshot `es`.
    pub open spec fn leaf_delta(
        inds: Seq<usize>,
        es: Seq<Particle<T>>,
        sums: Seq<Particle<T>>,
        g: T,
        dt: T,
        i: int,
    ) -> Vector2D<T> {
        Self::delta_sums(
            Self::delta_peers(inds, es, i, g, dt, inds.len() as int),
            sums,
            es[inds[i] as int],
            g,
            dt,
            sums.len() as int,
        )
    }

    /// The delta-velocities of every slot of a leaf, all from the same
    /// pre-tick snapshot.
    pub open spec fn leaf_deltas(
        inds: Seq<usize>,
        es: Seq<Particle<T>>,
        sums: Seq<Particle<T>>,
        g: T,
        dt: T,
    ) -> Seq<Vector2D<T>> {
        Seq::new(inds.len(), |i: int| Self::leaf_delta(inds, es, sums, g, dt, i))
    }

    /// Applies the first `k` delta-velocities in slot order: velocity first,
    /// then position advanced by the updated velocity (semi-implicit Euler).
    pub open spec fn apply_deltas(
        es: Seq<Particle<T>>,
        inds: Seq<usize>,
        deltas: Seq<Vector2D<T>>,
        dt: T,
        k: int,
    ) -> Seq<Particle<T>>
        decreases k,
    {
        if k <= 0 {
            es
        } else {
            let prev = Self::apply_deltas(es, inds, deltas, dt, k - 1);
            let idx = inds[k - 1] as int;
            let p = prev[idx];
            let v2 = p.velocity.add_spec(deltas[k - 1]);
            prev.update(
                idx,
                Particle {
                    position: p.position.add_spec(v2.mul_spec(dt)),
                    velocity: v2,
                    radius: p.radius,
                    mass: p.mass,
                },
            )
        }
    }

    /// What one tick pass does to the particle buffer, given the distant
    /// summaries collected so far: a leaf computes every slot's
    /// delta-velocity from the pre-pass snapshot and then applies them in
    /// slot order; an internal node fans out to its children in a fixed
    /// order (top-left, top-right, bottom-left, bottom-right), handing each
    /// child the incoming summaries plus the summary particles of its three
    /// siblings, which are not recursed into.
    pub open spec fn spec_tick(
        self,
        es: Seq<Particle<T>>,
        g: T,
        dt: T,
        sums: Seq<Particle<T>>,
    ) -> Seq<Particle<T>>
        decreases self,
    {
        match self.node {
            QuadtreeNode::Leaf { element_indices } => {
                let inds = element_indices@;
                Self::apply_deltas(
                    es,
                    inds,
                    Self::leaf_deltas(inds, es, sums, g, dt),
                    dt,
                    inds.len() as int,
                )
            },
            QuadtreeNode::Node { top_left, top_right, bottom_left, bottom_right } => {
                let e1 = top_left.spec_tick(
                    es,
                    g,
                    dt,
                    sums + seq![
                        top_right.summary_particle,
                        bottom_left.summary_particle,
                        bottom_right.summary_particle,
                    ],
                );
                let e2 = top_right.spec_tick(
                    e1,
                    g,
                    dt,
                    sums + seq![
                        top_left.summary_particle,
                        bottom_left.summary_particle,
                        bottom_right.summary_particle,
                    ],
                );
                let e3 = bottom_left.spec_tick(
                    e2,
                    g,
                    dt,
                    sums + seq![
                        top_right.summary_particle,
                        top_left.summary_particle,
                        bottom_right.summary_particle,
                    ],
                );
                bottom_right.spec_tick(
                    e3,
                    g,
                    dt,
                    sums + seq![
                        top_right.summary_particle,
                        bottom_left.summary_particle,
                        top_left.summary_particle,
                    ],
                )
            },
        }
    }

    /// Every index held in a leaf of this tree points into a buffer of
    /// length `n`.
    pub open spec fn indices_in_bounds(self, n: nat) -> bool
        decreases self,
    {
        match self.node {
            QuadtreeNode::Leaf { element_indices } => {
                forall|k: int|
                    0 <= k < element_indices@.len() ==> element_indices@[k] < n
            },
            QuadtreeNode::Node { top_left, top_right, bottom_left, bottom_right } => {
                top_left.indices_in_bounds(n) && top_right.indices_in_bounds(n)
                    && bottom_left.indices_in_bounds(n) && bottom_right.indices_in_bounds(n)
            },
        }
    }

    /// A well-formed tree only holds indices into its buffer.
    pub proof fn lemma_wf_in_bounds(self, es: Seq<Particle<T>>)
        requires
            self.wf(es),
        ensures
            self.indices_in_bounds(es.len()),
        decreases self,
    {
        match self.node {
            QuadtreeNode::Leaf { .. } => {},
            QuadtreeNode::Node { top_left, top_right, bottom_left, bottom_right } => {
                top_left.lemma_wf_in_bounds(es);
                top_right.lemma_wf_in_bounds(es);
                bottom_left.lemma_wf_in_bounds(es);
                bottom_right.lemma_wf_in_bounds(es);
            },
        }
    }

    /// Applying deltas never changes the buffer's length.
    pub proof fn lemma_apply_deltas_len(
        es: Seq<Particle<T>>,
        inds: Seq<usize>,
        deltas: Seq<Vector2D<T>>,
        dt: T,
        k: int,
    )
        requires
            forall|m: int| 0 <= m < inds.len() ==> inds[m] < es.len(),
            k <= inds.len(),
        ensures
            Self::apply_deltas(es, inds, deltas, dt, k).len() == es.len(),
        decreases k,
    {
        if k > 0 {
            Self::lemma_apply_deltas_len(es, inds, deltas, dt, k - 1);
        }
    }

    /// A tick pass never changes the buffer's length.
    pub proof fn lemma_spec_tick_len(
        self,
        es: Seq<Particle<T>>,
        g: T,
        dt: T,
        sums: Seq<Particle<T>>,
    )
        requires
            self.indices_in_bounds(es.len()),
        ensures
            self.spec_tick(es, g, dt, sums).len() == es.len(),
        decreases self,
    {
        match self.node {
            QuadtreeNode::Leaf { element_indices } => {
                let inds = element_indices@;
                Self::lemma_apply_deltas_len(
                    es,
                    inds,
                    Self::leaf_deltas(inds, es, sums, g, dt),
                    dt,
                    inds.len() as int,
                );
            },
            QuadtreeNode::Node { top_left, top_right, bottom_left, bottom_right } => {
                let s1 = sums + seq![
                    top_right.summary_particle,
                    bottom_left.summary_particle,
                    bottom_right.summary_particle,
                ];
                let s2 = sums + seq![
                    top_left.summary_particle,
                    bottom_left.summary_particle,
                    bottom_right.summary_particle,
                ];
                let s3 = sums + seq![
                    top_right.summary_particle,
                    top_left.summary_particle,
                    bottom_right.summary_particle,
                ];
                let s4 = sums + seq![
                    top_right.summary_particle,
                    bottom_left.summary_particle,
                    top_left.summary_particle,
                ];
                let e1 = top_left.spec_tick(es, g, dt, s1);
                let e2 = top_right.spec_tick(e1, g, dt, s2);
                let e3 = bottom_left.spec_tick(e2, g, dt, s3);
                top_left.lemma_spec_tick_len(es, g, dt, s1);
                top_right.lemma_spec_tick_len(e1, g, dt, s2);
                bottom_left.lemma_spec_tick_len(e2, g, dt, s3);
                bottom_right.lemma_spec_tick_len(e3, g, dt, s4);
            },
        }
    }

    /// Extends a list of distant summaries with the summary particles of
    /// three sibling quadrants, in argument order.
    pub fn create_summaries(
        original: &Vec<Particle<T>>,
        tree1: &Self,
        tree2: &Self,
        tree3: &Self,
    ) -> (r: Vec<Particle<T>>)
        ensures
            r@ == original@ + seq![
                tree1.summary_particle,
                tree2.summary_particle,
                tree3.summary_particle,
            ],
    {
        let mut summaries: Vec<Particle<T>> = Vec::new();
        let mut k: usize = 0;
        while k < original.len()
            invariant
                k <= original.len(),
                summaries@ == original@.take(k as int),
            decreases original.len() - k,
        {
            proof {
                assert(original@.take(k as int + 1) =~= original@.take(k as int).push(
                    original@[k as int],
                ));
            }
            summaries.push(original[k]);
            k = k + 1;
        }
        proof {
            assert(original@.take(original.len() as int) =~= original@);
        }
        summaries.push(tree1.summary_particle);
        summaries.push(tree2.summary_particle);
        summaries.push(tree3.summary_particle);
        proof {
            assert(summaries@ =~= original@ + seq![
                tree1.summary_particle,
                tree2.summary_particle,
                tree3.summary_particle,
            ]);
        }
        summaries
    }

    /// One recursive tick pass under a list of distant summaries: exactly
    /// the transformation [`Self::spec_tick`] describes.
    #[verifier::loop_isolation(false)]
    #[verifier::rlimit(100)]
    pub fn tick_with_summaries(
        &self,
        elements: &mut Vec<Particle<T>>,
        grav_const: T,
        elapsed_s: T,
        summaries: &Vec<Particle<T>>,
    )
        requires
            self.indices_in_bounds(old(elements)@.len()),
        ensures
            final(elements)@ == self.spec_tick(
                old(elements)@,
                grav_const,
                elapsed_s,
                summaries@,
            ),
        decreases self.height(),
    {
        let ghost es0 = elements@;
        match &self.node {
            QuadtreeNode::Node { top_left, top_right, bottom_left, bottom_right } => {
                let s_tl = Self::create_summaries(summaries, top_right, bottom_left, bottom_right);
                top_left.tick_with_summaries(elements, grav_const, elapsed_s, &s_tl);
                proof {
                    top_left.lemma_spec_tick_len(es0, grav_const, elapsed_s, s_tl@);
                }
                let s_tr = Self::create_summaries(summaries, top_left, bottom_left, bottom_right);
                let ghost e1 = elements@;
                top_right.tick_with_summaries(elements, grav_const, elapsed_s, &s_tr);
                proof {
                    top_right.lemma_spec_tick_len(e1, grav_const, elapsed_s, s_tr@);
                }
                let s_bl = Self::create_summaries(summaries, top_right, top_left, bottom_right);
                let ghost e2 = elements@;
                bottom_left.tick_with_summaries(elements, grav_const, elapsed_s, &s_bl);
                proof {
                    bottom_left.lemma_spec_tick_len(e2, grav_const, elapsed_s, s_bl@);
                }
                let s_br = Self::create_summaries(summaries, top_right, bottom_left, top_left);
                bottom_right.tick_with_summaries(elements, grav_const, elapsed_s, &s_br);
            },
            QuadtreeNode::Leaf { element_indices } => {
                let ghost inds = element_indices@;
                let ghost sums = summaries@;
                let num_particles = element_indices.len();
                let mut delta_velocities: Vec<Vector2D<T>> = Vec::new();
                let mut i: usize = 0;
                while i < num_particles
                    invariant
                        i <= num_particles,
                        elements@ == es0,
                        delta_velocities@.len() == i as int,
                        forall|ii: int|
                            0 <= ii < i as int ==> delta_velocities@[ii] == Self::leaf_delta(
                                inds,
                                es0,
                                sums,
                                grav_const,
                                elapsed_s,
                                ii,
                            ),
                    decreases num_particles - i,
                {
                    let mut delta_v: Vector2D<T> = Vector2D::zero();
                    let mut j: usize = 0;
                    while j < num_particles
                        invariant
                            j <= num_particles,
                            i < num_particles,
                            elements@ == es0,
                            delta_v == Self::delta_peers(
                                inds,
                                es0,
                                i as int,
                                grav_const,
                                elapsed_s,
                                j as int,
                            ),
                        decreases num_particles - j,
                    {
                        if j != i {
                            let p1 = elements[element_indices[i]];
                            let p2 = elements[element_indices[j]];
                            let m2 = p2.mass;
                            let v_dir = p2.position.sub(p1.position);
                            let r_sq = v_dir.length_sq();
                            let a1 = grav_const.mul(m2).div(r_sq);
                            delta_v = delta_v.add(v_dir.mul(a1).mul(elapsed_s));
                        }
                        j = j + 1;
                    }
                    let mut sj: usize = 0;
                    while sj < summaries.len()
                        invariant
                            sj <= summaries.len(),
                            i < num_particles,
                            elements@ == es0,
                            delta_v == Self::delta_sums(
                                Self::delta_peers(
                                    inds,
                                    es0,
                                    i as int,
                                    grav_const,
                                    elapsed_s,
                                    inds.len() as int,
                                ),
                                sums,
                                es0[inds[i as int] as int],
                                grav_const,
                                elapsed_s,
                                sj as int,
                            ),
                        decreases summaries.len() - sj,
                    {
                        let p1 = elements[element_indices[i]];
                        let p2 = summaries[sj];
                        let m2 = p2.mass;
                        let v_dir = p2.position.sub(p1.position);
                        let r_sq = v_dir.length_sq();
                        let a1 = grav_const.mul(m2).div(r_sq);
                        delta_v = delta_v.add(v_dir.mul(a1).mul(elapsed_s));
                        sj = sj + 1;
                    }
                    delta_velocities.push(delta_v);
                    i = i + 1;
                }
                let ghost deltas = delta_velocities@;
                proof {
                    assert(deltas =~= Self::leaf_deltas(inds, es0, sums, grav_const, elapsed_s));
                }
                let mut k: usize = 0;
                while k < num_particles
                    invariant
                        k <= num_particles,
                        delta_velocities@ == deltas,
                        elements@ == Self::apply_deltas(es0, inds, deltas, elapsed_s, k as int),
                        elements@.len() == es0.len(),
                    decreases num_particles - k,
                {
                    proof {
                        Self::lemma_apply_deltas_len(es0, inds, deltas, elapsed_s, k as int + 1);
                    }
                    let ei = element_indices[k];
                    let particle = elements[ei];
                    let v2 = particle.velocity.add(delta_velocities[k]);
                    let pos2 = particle.position.add(v2.mul(elapsed_s));
                    elements[ei] = Particle {
                        position: pos2,
                        velocity: v2,
                        radius: particle.radius,
                        mass: particle.mass,
                    };
                    k = k + 1;
                }
            },
        }
    }

    /// One simulation tick: advances every particle's velocity and then its
    /// position in place, starting the descent with no distant summaries.
    pub fn tick(&self, elements: &mut Vec<Particle<T>>, grav_const: T, elapsed_s: T)
        requires
            self.indices_in_bounds(old(elements)@.len()),
        ensures
            final(elements)@ == self.spec_tick(
                old(elements)@,
                grav_const,
                elapsed_s,
                Seq::empty(),
            ),
    {
        let empty: Vec<Particle<T>> = Vec::new();
        self.tick_with_summaries(elements, grav_const, elapsed_s, &empty);
    }
}

} // verus!
