use vstd::prelude::*;

verus! {

/// A triangle of the navigation mesh, by the indices of its corner vertices.
#[derive(PartialEq, Eq, Structural, Clone, Copy, Debug)]
pub struct Triangle {
    pub a: usize,
    pub b: usize,
    pub c: usize,
}

impl Triangle {
    pub open spec fn has(self, vertex: usize) -> bool {
        self.a == vertex || self.b == vertex || self.c == vertex
    }

    /// Its three corners are different vertices.
    pub open spec fn nondegenerate(self) -> bool {
        self.a != self.b && self.b != self.c && self.c != self.a
    }

    pub open spec fn shared_edge_spec(self, other: Triangle) -> Option<(usize, usize)> {
        if other.has(self.a) && other.has(self.b) {
            Some((self.a, self.b))
        } else if other.has(self.b) && other.has(self.c) {
            Some((self.b, self.c))
        } else if other.has(self.c) && other.has(self.a) {
            Some((self.c, self.a))
        } else {
            None
        }
    }

    pub open spec fn opposite_spec(self, a: usize, b: usize) -> Option<usize> {
        if self.a != a && self.a != b {
            Some(self.a)
        } else if self.b != a && self.b != b {
            Some(self.b)
        } else if self.c != a && self.c != b {
            Some(self.c)
        } else {
            None
        }
    }

    pub fn contains(&self, vertex: usize) -> (contains: bool)
        ensures
            contains == self.has(vertex),
    {
        self.a == vertex || self.b == vertex || self.c == vertex
    }

    /// The first of this triangle's edges (a–b, b–c, c–a) whose ends are both corners of
    /// `other`.
    pub fn shared_edge(&self, other: &Triangle) -> (edge: Option<(usize, usize)>)
        ensures
            edge == self.shared_edge_spec(*other),
    {
        if other.contains(self.a) && other.contains(self.b) {
            Some((self.a, self.b))
        } else if other.contains(self.b) && other.contains(self.c) {
            Some((self.b, self.c))
        } else if other.contains(self.c) && other.contains(self.a) {
            Some((self.c, self.a))
        } else {
            None
        }
    }

    /// The first corner that is neither `a` nor `b`.
    pub fn opposite_point(&self, a: usize, b: usize) -> (point: Option<usize>)
        ensures
            point == self.opposite_spec(a, b),
    {
        if self.a != a && self.a != b {
            Some(self.a)
        } else if self.b != a && self.b != b {
            Some(self.b)
        } else if self.c != a && self.c != b {
            Some(self.c)
        } else {
            None
        }
    }
}

/// A nondegenerate triangle always has a corner off any edge.
pub proof fn lemma_opposite_exists(t: Triangle, a: usize, b: usize)
    requires
        t.nondegenerate(),
    ensures
        t.opposite_spec(a, b) matches Some(p) && t.has(p) && p != a && p != b,
{
}

/// The portal after (`left`, `right`) when the path leaves `through` into `next`: the corner of
/// `through` off the portal replaces the side of the portal that `next` does not share.
pub open spec fn next_portal(through: Triangle, next: Triangle, left: usize, right: usize) -> (usize, usize) {
    let p = through.opposite_spec(left, right)->0;
    if next.has(left) {
        (left, p)
    } else {
        (p, right)
    }
}

/// The portals from triangle `i` on, given the portal (`left`, `right`) into it.
pub open spec fn portals_from(triangles: Seq<Triangle>, i: int, left: usize, right: usize) -> Seq<(usize, usize)>
    decreases triangles.len() - i,
{
    if i < 1 || i >= triangles.len() - 1 {
        Seq::empty()
    } else {
        let (l, r) = next_portal(triangles[i], triangles[i + 1], left, right);
        seq![(l, r)] + portals_from(triangles, i + 1, l, r)
    }
}

/// The portals of a path through the mesh: the edge between the first two triangles, then one
/// portal for each further step.
pub open spec fn portal_edges_spec(triangles: Seq<Triangle>) -> Seq<(usize, usize)> {
    let (l, r) = triangles[0].shared_edge_spec(triangles[1])->0;
    seq![(l, r)] + portals_from(triangles, 1, l, r)
}

/// The portals of a path of triangles, as pairs of vertices (left, right), for the funnel
/// that straightens the path. The path's start and end points come before and after them.
pub fn funnel_portal_edges(triangles: &Vec<Triangle>) -> (portals: Vec<(usize, usize)>)
    requires
        triangles@.len() >= 2,
        triangles@[0].shared_edge_spec(triangles@[1]) is Some,
        forall|i: int| 0 <= i < triangles@.len() ==> #[trigger] triangles@[i].nondegenerate(),
    ensures
        portals@ == portal_edges_spec(triangles@),
        portals@.len() == triangles@.len() - 1,
        forall|k: int|
            1 <= k < triangles@.len() - 1 ==> keeps_a_side(
                portals@[k - 1],
                #[trigger] portals@[k],
                triangles@[k],
                triangles@[k + 1],
            ),
{
    let (mut left, mut right) = match triangles[0].shared_edge(&triangles[1]) {
        Some(edge) => edge,
        None => (0, 0),
    };
    let ghost first = (left, right);
    let mut portals: Vec<(usize, usize)> = Vec::new();
    portals.push((left, right));
    let n = triangles.len();
    let mut i: usize = 1;
    while i < n - 1
        invariant
            n == triangles@.len(),
            n >= 2,
            1 <= i <= n - 1,
            forall|k: int| 0 <= k < triangles@.len() ==> #[trigger] triangles@[k].nondegenerate(),
            portals@.len() == i,
            portals@ + portals_from(triangles@, i as int, left, right) == seq![first]
                + portals_from(triangles@, 1, first.0, first.1),
        decreases n - i,
    {
        proof {
            lemma_opposite_exists(triangles@[i as int], left, right);
        }
        let new_point = match triangles[i].opposite_point(left, right) {
            Some(p) => p,
            None => 0,
        };
        let ghost before = portals@;
        let ghost (ol, or) = (left, right);
        if triangles[i + 1].contains(left) {
            right = new_point;
        } else {
            left = new_point;
        }
        portals.push((left, right));
        proof {
            assert(portals_from(triangles@, i as int, ol, or) == seq![(left, right)] + portals_from(
                triangles@,
                i as int + 1,
                left,
                right,
            ));
            assert(portals@ + portals_from(triangles@, i as int + 1, left, right) =~= before
                + portals_from(triangles@, i as int, ol, or));
        }
        i = i + 1;
    }
    proof {
        assert(portals_from(triangles@, i as int, left, right) =~= Seq::<(usize, usize)>::empty());
        assert(portals@ =~= portals@ + portals_from(triangles@, i as int, left, right));
        lemma_portals_keep_a_side(triangles@);
    }
    portals
}


/// A portal after the first keeps one side of the one before it: when the next triangle still
/// has the previous left vertex, the left side stays and a new corner of the triangle being
/// crossed becomes the right side; otherwise the right side stays and the new corner becomes the
/// left side.
pub open spec fn keeps_a_side(previous: (usize, usize), portal: (usize, usize), through: Triangle, next: Triangle) -> bool {
    if next.has(previous.0) {
        &&& portal.0 == previous.0
        &&& through.has(portal.1) && portal.1 != previous.0 && portal.1 != previous.1
    } else {
        &&& portal.1 == previous.1
        &&& through.has(portal.0) && portal.0 != previous.0 && portal.0 != previous.1
    }
}

/// The `j`-th portal from triangle `i` on is the step from the portal before it.
proof fn lemma_portals_from_step(triangles: Seq<Triangle>, i: int, left: usize, right: usize, j: int)
    requires
        1 <= i,
        0 <= j < portals_from(triangles, i, left, right).len(),
        forall|k: int| 0 <= k < triangles.len() ==> #[trigger] triangles[k].nondegenerate(),
    ensures
        i + j + 1 < triangles.len(),
        portals_from(triangles, i, left, right).len() == triangles.len() - 1 - i,
        keeps_a_side(
            if j == 0 {
                (left, right)
            } else {
                portals_from(triangles, i, left, right)[j - 1]
            },
            portals_from(triangles, i, left, right)[j],
            triangles[i + j],
            triangles[i + j + 1],
        ),
    decreases triangles.len() - i,
{
    let (l, r) = next_portal(triangles[i], triangles[i + 1], left, right);
    lemma_opposite_exists(triangles[i], left, right);
    if i + 1 < triangles.len() - 1 {
        lemma_portals_from_length(triangles, i + 1, l, r);
    } else {
        assert(portals_from(triangles, i + 1, l, r).len() == 0);
    }
    if j > 0 {
        lemma_portals_from_step(triangles, i + 1, l, r, j - 1);
        assert(i + 1 + (j - 1) == i + j);
        if j > 1 {
            assert(portals_from(triangles, i, left, right)[j - 1] == portals_from(triangles, i + 1, l, r)[j - 2]);
        }
    }
}

proof fn lemma_portals_from_length(triangles: Seq<Triangle>, i: int, left: usize, right: usize)
    requires
        1 <= i <= triangles.len() - 1,
    ensures
        portals_from(triangles, i, left, right).len() == triangles.len() - 1 - i,
    decreases triangles.len() - i,
{
    if i < triangles.len() - 1 {
        let (l, r) = next_portal(triangles[i], triangles[i + 1], left, right);
        lemma_portals_from_length(triangles, i + 1, l, r);
    }
}

/// Every portal after the first keeps one side of the portal before it, on the side that the
/// next triangle of the path still has, and takes a new corner of the triangle being crossed as
/// its other side.
pub proof fn lemma_portals_keep_a_side(triangles: Seq<Triangle>)
    requires
        triangles.len() >= 2,
        triangles[0].shared_edge_spec(triangles[1]) is Some,
        forall|i: int| 0 <= i < triangles.len() ==> #[trigger] triangles[i].nondegenerate(),
    ensures
        portal_edges_spec(triangles).len() == triangles.len() - 1,
        forall|k: int|
            1 <= k < triangles.len() - 1 ==> keeps_a_side(
                portal_edges_spec(triangles)[k - 1],
                #[trigger] portal_edges_spec(triangles)[k],
                triangles[k],
                triangles[k + 1],
            ),
{
    let (l, r) = triangles[0].shared_edge_spec(triangles[1])->0;
    lemma_portals_from_length(triangles, 1, l, r);
    let rest = portals_from(triangles, 1, l, r);
    assert forall|k: int| 1 <= k < triangles.len() - 1 implies keeps_a_side(
        portal_edges_spec(triangles)[k - 1],
        #[trigger] portal_edges_spec(triangles)[k],
        triangles[k],
        triangles[k + 1],
    ) by {
        lemma_portals_from_step(triangles, 1, l, r, k - 1);
        assert(portal_edges_spec(triangles)[k] == rest[k - 1]);
        assert(1 + (k - 1) == k);
        if k > 1 {
            assert(portal_edges_spec(triangles)[k - 1] == rest[k - 2]);
        }
    }
}

/// How many corners of `t` are corners of `u`.
pub open spec fn shared_count(t: Triangle, u: Triangle) -> int {
    (if u.has(t.a) {
        1int
    } else {
        0int
    }) + (if u.has(t.b) {
        1int
    } else {
        0int
    }) + (if u.has(t.c) {
        1int
    } else {
        0int
    })
}

/// Two triangles of the mesh that share exactly one edge.
pub open spec fn adjacent(t: Triangle, u: Triangle) -> bool {
    t.nondegenerate() && u.nondegenerate() && shared_count(t, u) == 2
}

/// A path of neighbouring triangles that never steps straight back across the edge it just
/// crossed.
pub open spec fn corridor(triangles: Seq<Triangle>) -> bool {
    &&& triangles.len() >= 2
    &&& forall|i: int|
        0 <= i < triangles.len() - 1 ==> #[trigger] adjacent(triangles[i], triangles[i + 1])
    &&& forall|i: int|
        1 <= i < triangles.len() - 1 ==> #[trigger] moves_on(
            triangles[i - 1],
            triangles[i],
            triangles[i + 1],
        )
}

/// Leaving `here` into `next` does not cross back the edge between `prev` and `here`.
pub open spec fn moves_on(prev: Triangle, here: Triangle, next: Triangle) -> bool {
    exists|v: usize| prev.has(v) && here.has(v) && !next.has(v)
}

/// The portal is an edge shared by the two triangles.
pub open spec fn crosses(portal: (usize, usize), from: Triangle, to: Triangle) -> bool {
    &&& portal.0 != portal.1
    &&& from.has(portal.0) && from.has(portal.1)
    &&& to.has(portal.0) && to.has(portal.1)
}

proof fn lemma_portals_from_cross(triangles: Seq<Triangle>, i: int, left: usize, right: usize)
    requires
        corridor(triangles),
        1 <= i <= triangles.len() - 1,
        crosses((left, right), triangles[i - 1], triangles[i]),
    ensures
        portals_from(triangles, i, left, right).len() == triangles.len() - 1 - i,
        forall|k: int|
            0 <= k < portals_from(triangles, i, left, right).len() ==> crosses(
                #[trigger] portals_from(triangles, i, left, right)[k],
                triangles[i + k],
                triangles[i + k + 1],
            ),
    decreases triangles.len() - i,
{
    if i < triangles.len() - 1 {
        let prev = triangles[i - 1];
        let here = triangles[i];
        let next = triangles[i + 1];
        assert(adjacent(triangles[i - 1], triangles[(i - 1) + 1]));
        assert(adjacent(triangles[i], triangles[i + 1]));
        assert(moves_on(triangles[i - 1], triangles[i], triangles[i + 1]));
        lemma_opposite_exists(here, left, right);
        let p = here.opposite_spec(left, right)->0;
        let v = choose|v: usize| prev.has(v) && here.has(v) && !next.has(v);
        assert(v == left || v == right);
        let (l, r) = next_portal(here, next, left, right);
        assert(crosses((l, r), here, next));
        lemma_portals_from_cross(triangles, i + 1, l, r);
        let rest = portals_from(triangles, i + 1, l, r);
        assert forall|k: int| 0 <= k < portals_from(triangles, i, left, right).len() implies crosses(
            #[trigger] portals_from(triangles, i, left, right)[k],
            triangles[i + k],
            triangles[i + k + 1],
        ) by {
            if k > 0 {
                assert(portals_from(triangles, i, left, right)[k] == rest[k - 1]);
                assert(i + 1 + (k - 1) == i + k);
            }
        }
    }
}

/// Along a corridor, every portal is the edge that the path crosses between the two
/// triangles it connects: the first portal lies between the first and second triangles, the
/// next between the second and third, and so on.
pub proof fn lemma_portals_are_crossed_edges(triangles: Seq<Triangle>)
    requires
        corridor(triangles),
    ensures
        triangles[0].shared_edge_spec(triangles[1]) is Some,
        portal_edges_spec(triangles).len() == triangles.len() - 1,
        forall|k: int|
            0 <= k < triangles.len() - 1 ==> crosses(
                #[trigger] portal_edges_spec(triangles)[k],
                triangles[k],
                triangles[k + 1],
            ),
{
    assert(adjacent(triangles[0int], triangles[0int + 1]));
    let (l, r) = triangles[0].shared_edge_spec(triangles[1])->0;
    assert(crosses((l, r), triangles[0], triangles[1]));
    lemma_portals_from_cross(triangles, 1, l, r);
    let rest = portals_from(triangles, 1, l, r);
    assert forall|k: int| 0 <= k < triangles.len() - 1 implies crosses(
        #[trigger] portal_edges_spec(triangles)[k],
        triangles[k],
        triangles[k + 1],
    ) by {
        if k > 0 {
            assert(portal_edges_spec(triangles)[k] == rest[k - 1]);
            assert(1 + (k - 1) == k);
        }
    }
}

} // verus!
