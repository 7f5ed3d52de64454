use particles::Particle;
use particles::ParticleQuadTree;
use particles::QuadtreePointValue;
use particles::RecordingVisitor;
use particles::Vector2D;
use particles::VisitEvent;

/// The numeric instance the simulation runs on: plain `f32`.
#[derive(Clone, Copy, PartialEq, Debug)]
struct Fx(f32);

impl QuadtreePointValue for Fx {
    // the spec-level counterparts are ghost code; erased, their stubs just
    // mirror the executable operations
    fn add_spec(self, rhs: Self) -> Self {
        Fx(self.0 + rhs.0)
    }
    fn sub_spec(self, rhs: Self) -> Self {
        Fx(self.0 - rhs.0)
    }
    fn mul_spec(self, rhs: Self) -> Self {
        Fx(self.0 * rhs.0)
    }
    fn div_spec(self, rhs: Self) -> Self {
        Fx(self.0 / rhs.0)
    }
    fn le_spec(self, rhs: Self) -> bool {
        self.0 <= rhs.0
    }
    fn lt_spec(self, rhs: Self) -> bool {
        self.0 < rhs.0
    }
    fn zero_spec() -> Self {
        Fx(0.0)
    }
    fn from_spec(value: usize) -> Self {
        Fx(value as f32)
    }
    fn add(self, rhs: Self) -> Self {
        Fx(self.0 + rhs.0)
    }
    fn sub(self, rhs: Self) -> Self {
        Fx(self.0 - rhs.0)
    }
    fn mul(self, rhs: Self) -> Self {
        Fx(self.0 * rhs.0)
    }
    fn div(self, rhs: Self) -> Self {
        Fx(self.0 / rhs.0)
    }
    fn le(self, rhs: Self) -> bool {
        self.0 <= rhs.0
    }
    fn lt(self, rhs: Self) -> bool {
        self.0 < rhs.0
    }
    fn zero() -> Self {
        Fx(0.0)
    }
    fn from(value: usize) -> Self {
        Fx(value as f32)
    }
}

fn v(x: f32, y: f32) -> Vector2D<Fx> {
    Vector2D { x: Fx(x), y: Fx(y) }
}

fn p(x: f32, y: f32, mass: f32) -> Particle<Fx> {
    Particle { position: v(x, y), velocity: v(0.0, 0.0), radius: Fx(1.0), mass: Fx(mass) }
}

fn tree(cx: f32, cy: f32, w: f32, h: f32, cap: usize) -> ParticleQuadTree<Fx> {
    ParticleQuadTree::new(v(cx, cy), Fx(w), Fx(h), cap)
}

#[test]
fn new_tree_is_an_empty_leaf_at_center() {
    let t = tree(3.0, 4.0, 100.0, 50.0, 8);
    assert_eq!(t.center.x.0, 3.0);
    assert_eq!(t.center.y.0, 4.0);
    assert_eq!(t.width.0, 100.0);
    assert_eq!(t.height.0, 50.0);
    assert_eq!(t.num_elements, 0);
    assert_eq!(t.summary_particle.position.x.0, 3.0);
    assert_eq!(t.summary_particle.position.y.0, 4.0);
    assert_eq!(t.summary_particle.mass.0, 0.0);
}

#[test]
fn summary_mass_is_total_mass() {
    let buf = vec![p(0.0, 0.0, 1.5), p(10.0, 0.0, 2.0), p(5.0, 9.0, 3.25)];
    let mut t = tree(0.0, 0.0, 100.0, 100.0, 10);
    for i in 0..buf.len() {
        t.insert(&buf, i);
    }
    assert_eq!(t.num_elements, 3);
    assert_eq!(t.summary_particle.mass.0, 6.75);
}

#[test]
fn summary_position_is_unweighted_mean() {
    // wildly different masses; the mean must not be mass-weighted
    let buf = vec![p(0.0, 0.0, 1.0), p(10.0, 0.0, 100.0), p(5.0, 9.0, 7.0)];
    let mut t = tree(0.0, 0.0, 100.0, 100.0, 10);
    for i in 0..buf.len() {
        t.insert(&buf, i);
    }
    // running mean: (0,0) -> (5,0) -> ((5*2+5)/3, (0*2+9)/3) = (5,3)
    assert_eq!(t.summary_particle.position.x.0, 5.0);
    assert_eq!(t.summary_particle.position.y.0, 3.0);
}

#[test]
fn full_leaf_splits_and_no_leaf_exceeds_capacity() {
    let buf = vec![
        p(-10.0, -10.0, 1.0),
        p(10.0, -10.0, 1.0),
        p(-10.0, 10.0, 1.0),
        p(10.0, 10.0, 1.0),
    ];
    let mut t = tree(0.0, 0.0, 100.0, 100.0, 2);
    for i in 0..buf.len() {
        t.insert(&buf, i);
    }
    let mut rec = RecordingVisitor::new();
    t.visit(&mut rec);
    let nodes = rec.log.iter().filter(|e| matches!(e, VisitEvent::Node)).count();
    let leaves = rec.log.iter().filter(|e| matches!(e, VisitEvent::LeafNode)).count();
    assert_eq!(nodes, 1);
    assert_eq!(leaves, 4);
    // no leaf may hold more than 2 indices: count elements after each leaf event
    let mut run = 0;
    for e in rec.log.iter() {
        match e {
            VisitEvent::Element(_) => {
                run += 1;
                assert!(run <= 2);
            },
            _ => {
                run = 0;
            },
        }
    }
}

#[test]
fn split_keeps_every_index_exactly_once() {
    let buf = vec![
        p(-20.0, -20.0, 1.0),
        p(-19.0, -21.0, 1.0),
        p(21.0, -20.0, 1.0),
        p(20.0, 22.0, 1.0),
    ];
    let mut t = tree(0.0, 0.0, 100.0, 100.0, 3);
    for i in 0..buf.len() {
        t.insert(&buf, i);
    }
    let mut rec = RecordingVisitor::new();
    t.visit(&mut rec);
    let mut seen: Vec<usize> = rec
        .log
        .iter()
        .filter_map(|e| match e {
            VisitEvent::Element(i) => Some(*i),
            _ => None,
        })
        .collect();
    seen.sort();
    assert_eq!(seen, vec![0, 1, 2, 3]);
    assert_eq!(t.num_elements, 4);
}

#[test]
fn two_body_symmetry() {
    let mut buf = vec![p(-5.0, 0.0, 2.0), p(5.0, 0.0, 2.0)];
    let t0 = {
        let mut t = tree(0.0, 0.0, 100.0, 100.0, 100);
        t.insert(&buf, 0);
        t.insert(&buf, 1);
        t
    };
    t0.tick(&mut buf, Fx(10.0), Fx(1.0 / 30.0));
    // equal magnitude, opposite direction, along the connecting line
    assert_eq!(buf[0].velocity.x.0, -buf[1].velocity.x.0);
    assert!(buf[0].velocity.x.0 > 0.0);
    assert_eq!(buf[0].velocity.y.0, 0.0);
    assert_eq!(buf[1].velocity.y.0, 0.0);
    assert_eq!(buf[0].position.x.0, -buf[1].position.x.0);
}

#[test]
fn tick_is_deterministic() {
    let start = || {
        vec![
            p(0.0, 0.0, 1.0),
            p(10.0, 3.0, 2.5),
            p(-7.0, 4.0, 0.5),
            p(2.0, -9.0, 3.0),
            p(6.0, 6.0, 1.25),
        ]
    };
    let run = || {
        let mut buf = start();
        let mut t = tree(0.0, 0.0, 40.0, 40.0, 2);
        for i in 0..buf.len() {
            t.insert(&buf, i);
        }
        t.tick(&mut buf, Fx(10.0), Fx(1.0 / 30.0));
        buf
    };
    let a = run();
    let b = run();
    for i in 0..a.len() {
        assert_eq!(a[i].position.x.0.to_bits(), b[i].position.x.0.to_bits());
        assert_eq!(a[i].position.y.0.to_bits(), b[i].position.y.0.to_bits());
        assert_eq!(a[i].velocity.x.0.to_bits(), b[i].velocity.x.0.to_bits());
        assert_eq!(a[i].velocity.y.0.to_bits(), b[i].velocity.y.0.to_bits());
    }
}

#[test]
fn two_particle_exact_pairwise_scenario() {
    // masses 1 and 1 at (0,0) and (10,0); one leaf (capacity 100), G=10,
    // dt=1/30; displacement 10, squared length 100, acceleration 0.1,
    // delta-velocity = (10,0) * 0.1 * (1/30), about (0.0333, 0)
    let mut buf = vec![p(0.0, 0.0, 1.0), p(10.0, 0.0, 1.0)];
    let mut t = tree(5.0, 0.0, 40.0, 40.0, 100);
    t.insert(&buf, 0);
    t.insert(&buf, 1);
    let g = 10.0f32;
    let dt = 1.0f32 / 30.0f32;
    t.tick(&mut buf, Fx(g), Fx(dt));
    let a = g * 1.0 / 100.0;
    let dv = 10.0f32 * a * dt;
    assert_eq!(buf[0].velocity.x.0, dv);
    assert_eq!(buf[0].velocity.y.0, 0.0);
    assert_eq!(buf[1].velocity.x.0, -dv);
    assert_eq!(buf[1].velocity.y.0, 0.0);
    assert!((dv - 0.0333).abs() < 1e-3);
    // semi-implicit Euler: position moves by the updated velocity
    assert_eq!(buf[0].position.x.0, 0.0 + dv * dt);
    assert_eq!(buf[1].position.x.0, 10.0 - dv * dt);
}

#[test]
fn visit_order_after_one_split() {
    let buf = vec![
        p(-10.0, -10.0, 1.0),
        p(10.0, -10.0, 1.0),
        p(-10.0, 10.0, 1.0),
        p(10.0, 10.0, 1.0),
    ];
    let mut t = tree(0.0, 0.0, 100.0, 100.0, 1);
    for i in 0..buf.len() {
        t.insert(&buf, i);
    }
    let mut rec = RecordingVisitor::new();
    t.visit(&mut rec);
    assert_eq!(
        rec.log,
        vec![
            VisitEvent::Node,
            VisitEvent::LeafNode,
            VisitEvent::Element(0),
            VisitEvent::LeafNode,
            VisitEvent::Element(1),
            VisitEvent::LeafNode,
            VisitEvent::Element(2),
            VisitEvent::LeafNode,
            VisitEvent::Element(3),
        ]
    );
}

#[test]
fn boundary_routes_left_and_top_on_equality() {
    // the index that triggers a split is routed non-strictly: a particle
    // exactly on the center lines (x <= cx, y <= cy) goes top-left, while
    // the redistributed one on the strict comparison goes top-right
    let buf = vec![
        p(10.0, -10.0, 1.0), // strictly right, strictly top
        p(0.0, 0.0, 1.0),    // exactly at the center: left and top
    ];
    let mut t = tree(0.0, 0.0, 100.0, 100.0, 1);
    t.insert(&buf, 0);
    t.insert(&buf, 1); // splits the root
    let mut rec = RecordingVisitor::new();
    t.visit(&mut rec);
    assert_eq!(
        rec.log,
        vec![
            VisitEvent::Node,
            VisitEvent::LeafNode,
            VisitEvent::Element(1), // top-left holds the boundary particle
            VisitEvent::LeafNode,
            VisitEvent::Element(0), // top-right holds the redistributed one
            VisitEvent::LeafNode,
            VisitEvent::LeafNode,
        ]
    );
}

#[test]
fn summary_of_sibling_quadrants_pulls_distant_particle() {
    // one particle alone in its quadrant still gets pulled by the sibling
    // quadrant's summary
    let mut buf = vec![p(-10.0, -10.0, 1.0), p(10.0, 10.0, 5.0), p(12.0, 12.0, 5.0)];
    let mut t = tree(0.0, 0.0, 100.0, 100.0, 2);
    for i in 0..buf.len() {
        t.insert(&buf, i);
    }
    t.tick(&mut buf, Fx(10.0), Fx(1.0 / 30.0));
    // particle 0 sits alone in the top-left leaf: its pull comes from the
    // bottom-right summary (mass 10 at the unweighted mean (11,11)) and the
    // massless summaries of the two empty quadrants; exact expected value:
    // displacement (21,21), squared length 882, acceleration 10*10/882
    let a1 = 10.0f32 * 10.0 / 882.0;
    let e = 21.0f32 * a1 * (1.0f32 / 30.0f32);
    assert_eq!(buf[0].velocity.x.0, e);
    assert_eq!(buf[0].velocity.y.0, e);
    assert!(buf[0].velocity.x.0 > 0.0);
}
