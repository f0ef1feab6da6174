use vstd::prelude::*;

verus! {

/// The child lists of a node tree, as sequences.
pub open spec fn child_lists(children: Seq<Vec<usize>>) -> Seq<Seq<usize>> {
    children.map_values(|c: Vec<usize>| c@)
}

/// Every child index names a node.
pub open spec fn well_indexed(children: Seq<Seq<usize>>) -> bool {
    forall|i: int, j: int|
        0 <= i < children.len() && 0 <= j < children[i].len() ==> #[trigger] children[i][j]
            < children.len()
}

/// `rank` is a height for the tree: every child ranks below its parent, and every rank is
/// below the number of nodes. Such a rank exists exactly when the child lists have no cycle.
pub open spec fn ranked(children: Seq<Seq<usize>>, rank: Seq<nat>) -> bool {
    &&& rank.len() == children.len()
    &&& forall|i: int| 0 <= i < rank.len() ==> #[trigger] rank[i] < children.len()
    &&& forall|i: int, j: int|
        0 <= i < children.len() && 0 <= j < children[i].len() ==> rank[#[trigger] children[i][j] as int]
            < rank[i]
}

/// The depth-first traversal from `node` (reached from `parent`): the node, then the
/// traversals from each of its children in order. `fuel` bounds the depth.
pub open spec fn preorder(
    children: Seq<Seq<usize>>,
    node: usize,
    parent: Option<usize>,
    fuel: nat,
) -> Seq<(usize, Option<usize>)>
    decreases fuel, 0int,
{
    if fuel == 0 || node >= children.len() {
        Seq::empty()
    } else {
        seq![(node, parent)] + preorder_list(
            children,
            children[node as int],
            Some(node),
            (fuel - 1) as nat,
        )
    }
}

/// The traversals from each node of `nodes` in order, each reached from `parent`.
pub open spec fn preorder_list(
    children: Seq<Seq<usize>>,
    nodes: Seq<usize>,
    parent: Option<usize>,
    fuel: nat,
) -> Seq<(usize, Option<usize>)>
    decreases fuel, nodes.len() + 1,
{
    if nodes.len() == 0 {
        Seq::empty()
    } else {
        preorder_list(children, nodes.drop_last(), parent, fuel) + preorder(
            children,
            nodes.last(),
            parent,
            fuel,
        )
    }
}

proof fn lemma_fuel_enough(
    children: Seq<Seq<usize>>,
    rank: Seq<nat>,
    node: usize,
    parent: Option<usize>,
    fuel: nat,
)
    requires
        well_indexed(children),
        ranked(children, rank),
        node < children.len(),
        fuel > rank[node as int],
    ensures
        preorder(children, node, parent, fuel) == preorder(
            children,
            node,
            parent,
            rank[node as int] + 1,
        ),
    decreases rank[node as int], children[node as int].len() + 2,
{
    let kids = children[node as int];
    assert(kids == kids.take(kids.len() as int));
    lemma_list_fuel_enough(children, rank, kids, Some(node), (fuel - 1) as nat, rank[node as int], node);
}

proof fn lemma_list_fuel_enough(
    children: Seq<Seq<usize>>,
    rank: Seq<nat>,
    nodes: Seq<usize>,
    parent: Option<usize>,
    fuel: nat,
    bound: nat,
    owner: usize,
)
    requires
        well_indexed(children),
        ranked(children, rank),
        owner < children.len(),
        bound == rank[owner as int],
        nodes.len() <= children[owner as int].len(),
        nodes == children[owner as int].take(nodes.len() as int),
        fuel >= bound,
    ensures
        preorder_list(children, nodes, parent, fuel) == preorder_list(children, nodes, parent, bound),
    decreases bound, nodes.len() + 1,
{
    if nodes.len() > 0 {
        let last = nodes.last();
        let k = nodes.len() - 1;
        assert(last == children[owner as int][k]);
        assert(rank[last as int] < rank[owner as int]);
        assert(nodes.drop_last() == children[owner as int].take(k));
        lemma_list_fuel_enough(children, rank, nodes.drop_last(), parent, fuel, bound, owner);
        lemma_fuel_enough(children, rank, last, parent, fuel);
        lemma_fuel_enough(children, rank, last, parent, bound);
    }
}

fn visit(
    children: &Vec<Vec<usize>>,
    node: usize,
    parent: Option<usize>,
    out: &mut Vec<(usize, Option<usize>)>,
    Ghost(rank): Ghost<Seq<nat>>,
)
    requires
        well_indexed(child_lists(children@)),
        ranked(child_lists(children@), rank),
        node < children@.len(),
    ensures
        final(out)@ == old(out)@ + preorder(
            child_lists(children@),
            node,
            parent,
            rank[node as int] + 1,
        ),
    decreases rank[node as int],
{
    let ghost tree = child_lists(children@);
    out.push((node, parent));
    let ghost start = out@;
    let kids = &children[node];
    assert(kids@ == tree[node as int]);
    let mut j: usize = 0;
    while j < kids.len()
        invariant
            tree == child_lists(children@),
            well_indexed(tree),
            ranked(tree, rank),
            node < children@.len(),
            kids@ == tree[node as int],
            j <= kids@.len(),
            out@ == start + preorder_list(tree, kids@.take(j as int), Some(node), rank[node as int]),
        decreases kids@.len() - j,
    {
        let kid = kids[j];
        assert(kid == tree[node as int][j as int]);
        assert(rank[kid as int] < rank[node as int]);
        let ghost before = out@;
        visit(children, kid, Some(node), out, Ghost(rank));
        proof {
            lemma_fuel_enough(tree, rank, kid, Some(node), rank[node as int]);
            assert(kids@.take(j as int + 1).drop_last() =~= kids@.take(j as int));
            assert(kids@.take(j as int + 1).last() == kid);
            assert(out@ =~= start + preorder_list(
                tree,
                kids@.take(j as int + 1),
                Some(node),
                rank[node as int],
            ));
        }
        j = j + 1;
    }
    proof {
        assert(kids@.take(kids@.len() as int) =~= kids@);
        assert(out@ =~= old(out)@ + preorder(tree, node, parent, rank[node as int] + 1));
    }
}

/// The order in which the transforms of a tree of nodes are computed: depth first from each
/// root in turn, every node paired with its parent (`None` for the roots). The child lists
/// must form a tree or forest without cycles (a rank as in `ranked` exists).
pub fn build_graph_run_indices(roots: &Vec<usize>, children: &Vec<Vec<usize>>) -> (indices: Vec<
    (usize, Option<usize>),
>)
    requires
        forall|i: int| 0 <= i < roots@.len() ==> #[trigger] roots@[i] < children@.len(),
        well_indexed(child_lists(children@)),
        exists|rank: Seq<nat>| ranked(child_lists(children@), rank),
    ensures
        indices@ == preorder_list(child_lists(children@), roots@, None, children@.len() as nat),
{
    let ghost tree = child_lists(children@);
    let ghost rank = choose|rank: Seq<nat>| ranked(child_lists(children@), rank);
    let mut indices: Vec<(usize, Option<usize>)> = Vec::new();
    let mut i: usize = 0;
    while i < roots.len()
        invariant
            tree == child_lists(children@),
            well_indexed(tree),
            ranked(tree, rank),
            forall|k: int| 0 <= k < roots@.len() ==> #[trigger] roots@[k] < children@.len(),
            i <= roots@.len(),
            indices@ == preorder_list(tree, roots@.take(i as int), None, children@.len() as nat),
        decreases roots@.len() - i,
    {
        let root = roots[i];
        visit(children, root, None, &mut indices, Ghost(rank));
        proof {
            lemma_fuel_enough(tree, rank, root, None, children@.len() as nat);
            assert(roots@.take(i as int + 1).drop_last() =~= roots@.take(i as int));
            assert(roots@.take(i as int + 1).last() == root);
        }
        i = i + 1;
    }
    proof {
        assert(roots@.take(roots@.len() as int) =~= roots@);
    }
    indices
}


/// The parent of entry `k` is the node of some earlier entry.
pub open spec fn parent_listed_before(s: Seq<(usize, Option<usize>)>, k: int) -> bool {
    s[k].1 matches Some(p) && exists|j: int| 0 <= j < k && #[trigger] s[j].0 == p
}

/// Every entry's parent is `outer` or the node of an earlier entry.
pub open spec fn parents_first(s: Seq<(usize, Option<usize>)>, outer: Option<usize>) -> bool {
    forall|k: int| 0 <= k < s.len() ==> s[k].1 == outer || #[trigger] parent_listed_before(s, k)
}

proof fn lemma_parents_first_concat(
    a: Seq<(usize, Option<usize>)>,
    b: Seq<(usize, Option<usize>)>,
    outer: Option<usize>,
)
    requires
        parents_first(a, outer),
        parents_first(b, outer),
    ensures
        parents_first(a + b, outer),
{
    let s = a + b;
    assert forall|k: int| 0 <= k < s.len() implies s[k].1 == outer || #[trigger] parent_listed_before(
        s,
        k,
    ) by {
        if k < a.len() {
            assert(s[k] == a[k]);
            if s[k].1 != outer {
                assert(parent_listed_before(a, k));
                let p = a[k].1->0;
                let j = choose|j: int| 0 <= j < k && #[trigger] a[j].0 == p;
                assert(s[j] == a[j]);
            }
        } else {
            let kb = k - a.len();
            assert(s[k] == b[kb]);
            if s[k].1 != outer {
                assert(parent_listed_before(b, kb));
                let p = b[kb].1->0;
                let j = choose|j: int| 0 <= j < kb && #[trigger] b[j].0 == p;
                assert(s[j + a.len()] == b[j]);
            }
        }
    }
}

proof fn lemma_preorder_parents_first(
    children: Seq<Seq<usize>>,
    node: usize,
    parent: Option<usize>,
    fuel: nat,
)
    ensures
        parents_first(preorder(children, node, parent, fuel), parent),
    decreases fuel, 0int,
{
    if fuel > 0 && node < children.len() {
        let rest = preorder_list(children, children[node as int], Some(node), (fuel - 1) as nat);
        lemma_list_parents_first(children, children[node as int], Some(node), (fuel - 1) as nat);
        let s = preorder(children, node, parent, fuel);
        assert(s == seq![(node, parent)] + rest);
        assert forall|k: int| 0 <= k < s.len() implies s[k].1 == parent || #[trigger] parent_listed_before(
            s,
            k,
        ) by {
            if k > 0 {
                assert(s[k] == rest[k - 1]);
                if rest[k - 1].1 == Some(node) {
                    assert(s[0].0 == node);
                } else {
                    assert(parent_listed_before(rest, k - 1));
                    let p = rest[k - 1].1->0;
                    let j = choose|j: int| 0 <= j < k - 1 && #[trigger] rest[j].0 == p;
                    assert(s[j + 1] == rest[j]);
                }
            }
        }
    }
}

proof fn lemma_list_parents_first(
    children: Seq<Seq<usize>>,
    nodes: Seq<usize>,
    parent: Option<usize>,
    fuel: nat,
)
    ensures
        parents_first(preorder_list(children, nodes, parent, fuel), parent),
    decreases fuel, nodes.len() + 1,
{
    if nodes.len() > 0 {
        lemma_list_parents_first(children, nodes.drop_last(), parent, fuel);
        lemma_preorder_parents_first(children, nodes.last(), parent, fuel);
        lemma_parents_first_concat(
            preorder_list(children, nodes.drop_last(), parent, fuel),
            preorder(children, nodes.last(), parent, fuel),
            parent,
        );
    }
}

/// In the traversal every node comes after its parent, so a node's transform is computed
/// after the transform of its parent that it builds on.
pub proof fn lemma_parents_come_first(children: Seq<Seq<usize>>, roots: Seq<usize>, fuel: nat)
    ensures
        forall|k: int|
            0 <= k < preorder_list(children, roots, None, fuel).len() && preorder_list(
                children,
                roots,
                None,
                fuel,
            )[k].1 is Some ==> #[trigger] parent_listed_before(
                preorder_list(children, roots, None, fuel),
                k,
            ),
{
    lemma_list_parents_first(children, roots, None, fuel);
}


/// The position of the last occurrence of `v` in `s` (-1 when absent).
pub open spec fn last_index_of(s: Seq<usize>, v: usize) -> int
    decreases s.len(),
{
    if s.len() == 0 {
        -1
    } else if s.last() == v {
        s.len() - 1
    } else {
        last_index_of(s.drop_last(), v)
    }
}

proof fn lemma_last_index_of(s: Seq<usize>, v: usize)
    ensures
        -1 <= last_index_of(s, v) < s.len(),
        last_index_of(s, v) >= 0 ==> s[last_index_of(s, v)] == v,
        last_index_of(s, v) == -1 <==> !s.contains(v),
    decreases s.len(),
{
    if s.len() > 0 {
        lemma_last_index_of(s.drop_last(), v);
        if s.last() != v {
            if s.contains(v) {
                let k = choose|k: int| 0 <= k < s.len() && s[k] == v;
                assert(s.drop_last()[k] == v);
            }
            if s.drop_last().contains(v) {
                let k = choose|k: int| 0 <= k < s.drop_last().len() && s.drop_last()[k] == v;
                assert(s[k] == v);
            }
        } else {
            assert(s[s.len() - 1] == v);
        }
    }
}

fn find_last(s: &Vec<usize>, v: usize) -> (index: usize)
    requires
        s@.contains(v),
    ensures
        index == last_index_of(s@, v),
{
    proof {
        lemma_last_index_of(s@, v);
    }
    let mut n = s.len();
    assert(s@.take(n as int) =~= s@);
    while n > 0
        invariant
            n <= s@.len(),
            last_index_of(s@, v) == last_index_of(s@.take(n as int), v),
            s@.take(n as int).contains(v),
        decreases n,
    {
        assert(s@.take(n as int).drop_last() =~= s@.take(n as int - 1));
        if s[n - 1] == v {
            return n - 1;
        }
        proof {
            let t = s@.take(n as int);
            let k = choose|k: int| 0 <= k < t.len() && t[k] == v;
            assert(t.drop_last()[k] == v);
        }
        n = n - 1;
    }
    proof {
        assert(s@.take(0).len() == 0);
    }
    0
}

/// The children of each joint of a skin, as positions in the skin's joint list. `joint_nodes`
/// gives the scene node of each joint and `node_children` the child nodes of each joint's
/// node; a node listed twice stands for its last position. Every child must be a joint.
pub fn joint_children(joint_nodes: &Vec<usize>, node_children: &Vec<Vec<usize>>) -> (children: Vec<
    Vec<usize>,
>)
    requires
        forall|i: int, k: int|
            0 <= i < node_children@.len() && 0 <= k < node_children@[i]@.len() ==> joint_nodes@.contains(
                #[trigger] node_children@[i]@[k],
            ),
    ensures
        children@.len() == node_children@.len(),
        forall|i: int|
            0 <= i < children@.len() ==> (#[trigger] children@[i])@.len() == node_children@[i]@.len(),
        forall|i: int, k: int|
            0 <= i < children@.len() && 0 <= k < children@[i]@.len() ==> #[trigger] children@[i]@[k]
                == last_index_of(joint_nodes@, node_children@[i]@[k]),
{
    let mut children: Vec<Vec<usize>> = Vec::new();
    let mut i: usize = 0;
    while i < node_children.len()
        invariant
            i <= node_children@.len(),
            children@.len() == i,
            forall|a: int, k: int|
                0 <= a < node_children@.len() && 0 <= k < node_children@[a]@.len()
                    ==> joint_nodes@.contains(#[trigger] node_children@[a]@[k]),
            forall|a: int|
                0 <= a < i ==> (#[trigger] children@[a])@.len() == node_children@[a]@.len(),
            forall|a: int, k: int|
                0 <= a < i && 0 <= k < children@[a]@.len() ==> #[trigger] children@[a]@[k]
                    == last_index_of(joint_nodes@, node_children@[a]@[k]),
        decreases node_children@.len() - i,
    {
        let kids = &node_children[i];
        let mut positions: Vec<usize> = Vec::new();
        let mut k: usize = 0;
        while k < kids.len()
            invariant
                i < node_children@.len(),
                kids@ == node_children@[i as int]@,
                k <= kids@.len(),
                positions@.len() == k,
                forall|a: int, b: int|
                    0 <= a < node_children@.len() && 0 <= b < node_children@[a]@.len()
                        ==> joint_nodes@.contains(#[trigger] node_children@[a]@[b]),
                forall|b: int| 0 <= b < k ==> #[trigger] positions@[b] == last_index_of(joint_nodes@, kids@[b]),
            decreases kids@.len() - k,
        {
            assert(joint_nodes@.contains(node_children@[i as int]@[k as int]));
            let p = find_last(joint_nodes, kids[k]);
            positions.push(p);
            k = k + 1;
        }
        children.push(positions);
        proof {
            assert forall|a: int, b: int|
                0 <= a < i + 1 && 0 <= b < children@[a]@.len() implies #[trigger] children@[a]@[b]
                    == last_index_of(joint_nodes@, node_children@[a]@[b]) by {
                if a < i {
                    assert(children@[a] == children@.drop_last()[a]);
                }
            }
        }
        i = i + 1;
    }
    children
}

} // verus!
