use vstd::prelude::*;

verus! {

/// An edge `(dependent, dependency)`: the first name must run after the second.
pub type Edge = (Seq<char>, Seq<char>);

/// `order` puts every dependency of an edge before its dependent, for each edge
/// whose two ends both occur in `order`.
pub open spec fn respects_edges(edges: Seq<Edge>, order: Seq<Seq<char>>) -> bool {
    forall|e: int, i: int, j: int|
        #![trigger edges[e], order[i], order[j]]
        0 <= e < edges.len() && 0 <= i < order.len() && 0 <= j < order.len()
            && order[i] == edges[e].0 && order[j] == edges[e].1
            ==> j < i
}

/// `order` lists each name of `subset` exactly once, nothing else, and respects
/// every edge among them.
pub open spec fn is_execution_order(
    edges: Seq<Edge>,
    subset: Seq<Seq<char>>,
    order: Seq<Seq<char>>,
) -> bool {
    &&& order.no_duplicates()
    &&& forall|x: Seq<char>| order.contains(x) <==> subset.contains(x)
    &&& respects_edges(edges, order)
}

/// Some order of `subset` respects every edge among its names.
pub open spec fn is_schedulable(edges: Seq<Edge>, subset: Seq<Seq<char>>) -> bool {
    exists|order: Seq<Seq<char>>| is_execution_order(edges, subset, order)
}

/// `path` is a cycle of dependencies through names of `subset`: each name
/// depends on the next, and the last depends on the first.
pub open spec fn is_cycle_in(edges: Seq<Edge>, subset: Seq<Seq<char>>, path: Seq<Seq<char>>) -> bool {
    &&& path.len() > 0
    &&& forall|k: int| 0 <= k < path.len() ==> subset.contains(#[trigger] path[k])
    &&& forall|k: int|
        0 <= k < path.len() ==> has_edge(edges, #[trigger] path[k], path[(k + 1) % path.len() as int])
}

/// The relation holds the edge `(dependent, dependency)`.
pub open spec fn has_edge(edges: Seq<Edge>, dependent: Seq<char>, dependency: Seq<char>) -> bool {
    exists|e: int| 0 <= e < edges.len() && #[trigger] edges[e] == (dependent, dependency)
}

/// `node` depends on a name of `subset` that is not yet in `placed`.
pub open spec fn is_blocked(
    edges: Seq<Edge>,
    subset: Seq<Seq<char>>,
    placed: Seq<Seq<char>>,
    node: Seq<char>,
) -> bool {
    exists|e: int|
        0 <= e < edges.len() && (#[trigger] edges[e]).0 == node && subset.contains(edges[e].1)
            && !placed.contains(edges[e].1)
}

/// `name` depends on one of `names`.
pub open spec fn waits_within(edges: Seq<Edge>, names: Seq<Seq<char>>, name: Seq<char>) -> bool {
    exists|e: int| 0 <= e < edges.len() && (#[trigger] edges[e]).0 == name && names.contains(edges[e].1)
}

/// Failures of dependency resolution.
#[derive(Debug, Clone)]
pub enum GraphError {
    /// The names left over once no further name could be scheduled; each of them
    /// depends on another of them, so following those dependencies closes a
    /// cycle among them.
    CircularDependency { remaining: Vec<String> },
}

/// `" <name>"` for each of the first `n` names.
pub open spec fn listed(names: Seq<Seq<char>>, n: nat) -> Seq<char>
    decreases n,
{
    if n == 0 || n > names.len() {
        Seq::empty()
    } else {
        listed(names, (n - 1) as nat) + " "@ + names[n - 1]
    }
}

impl GraphError {
    /// Text for an operator, naming the names left over.
    pub fn message(&self) -> (r: String)
        ensures
            self matches GraphError::CircularDependency { remaining } ==> r@
                == "Circular dependency detected among:"@ + listed(
                names_view(remaining@),
                remaining@.len(),
            ),
    {
        match self {
            GraphError::CircularDependency { remaining } => {
                let mut s = String::from_str("Circular dependency detected among:");
                let ghost head = s@;
                let ghost names = names_view(remaining@);
                let mut i: usize = 0;
                while i < remaining.len()
                    invariant
                        i <= remaining@.len(),
                        names == names_view(remaining@),
                        s@ == head + listed(names, i as nat),
                    decreases remaining.len() - i,
                {
                    s.append(" ");
                    s.append(remaining[i].as_str());
                    assert(names[i as int] == remaining@[i as int]@);
                    assert(s@ =~= head + listed(names, (i + 1) as nat));
                    i = i + 1;
                }
                s
            },
        }
    }
}

/// Directed "depends on" relation between tool or step names.
#[derive(Debug, Clone)]
pub struct DependencyGraph {
    edges: Vec<(String, String)>,
}

pub open spec fn edge_view(e: (String, String)) -> Edge {
    (e.0@, e.1@)
}

pub open spec fn names_view(v: Seq<String>) -> Seq<Seq<char>> {
    v.map_values(|s: String| s@)
}

impl View for DependencyGraph {
    type V = Seq<Edge>;

    closed spec fn view(&self) -> Seq<Edge> {
        self.edges@.map_values(|e: (String, String)| edge_view(e))
    }
}

/// Name `x` occurs among `names`.
fn contains_name(names: &[String], x: &String) -> (r: bool)
    ensures
        r == names_view(names@).contains(x@),
{
    let mut i: usize = 0;
    while i < names.len()
        invariant
            i <= names.len(),
            forall|k: int| 0 <= k < i ==> names@[k]@ != x@,
        decreases names.len() - i,
    {
        if names[i] == *x {
            proof {
                assert(names_view(names@)[i as int] == x@);
            }
            return true;
        }
        i = i + 1;
    }
    proof {
        if names_view(names@).contains(x@) {
            let k = choose|k: int| 0 <= k < names_view(names@).len() && names_view(names@)[k] == x@;
            assert(names@[k]@ == x@);
        }
    }
    false
}

impl DependencyGraph {
    /// A graph without edges.
    pub fn new() -> (r: Self)
        ensures
            r@ == Seq::<Edge>::empty(),
    {
        DependencyGraph { edges: Vec::new() }
    }

    /// Records that `dependent` runs after `dependency`.
    pub fn add_dependency(&mut self, dependent: String, dependency: String)
        ensures
            final(self)@ == old(self)@.push((dependent@, dependency@)),
    {
        self.edges.push((dependent, dependency));
        proof {
            assert(final(self)@ =~= old(self)@.push((dependent@, dependency@)));
        }
    }

    /// Every dependency of `node` that lies in `subset` is already in `placed`.
    fn is_ready(&self, node: &String, subset: &[String], placed: &[String]) -> (r: bool)
        ensures
            r == !is_blocked(self@, names_view(subset@), names_view(placed@), node@),
    {
        let mut e: usize = 0;
        while e < self.edges.len()
            invariant
                e <= self.edges.len(),
                forall|k: int|
                    0 <= k < e && (#[trigger] self@[k]).0 == node@ && names_view(subset@).contains(
                        self@[k].1,
                    ) ==> names_view(placed@).contains(self@[k].1),
            decreases self.edges.len() - e,
        {
            proof {
                assert(self@[e as int] == edge_view(self.edges@[e as int]));
            }
            if self.edges[e].0 == *node {
                if contains_name(subset, &self.edges[e].1) && !contains_name(placed, &self.edges[e].1) {
                    proof {
                        assert(self@[e as int].0 == node@);
                    }
                    return false;
                }
            }
            e = e + 1;
        }
        true
    }

    /// An order of `subset` in which each name comes after its dependencies,
    /// or the names that a cycle keeps from being scheduled.
    pub fn get_execution_order(&self, subset: &[String]) -> (r: Result<Vec<String>, GraphError>)
        ensures
            r is Ok <==> is_schedulable(self@, names_view(subset@)),
            r matches Ok(order) ==> is_execution_order(self@, names_view(subset@), names_view(order@)),
            r matches Err(GraphError::CircularDependency { remaining }) ==> names_view(remaining@).len()
                > 0 && (forall|x: Seq<char>|
                names_view(remaining@).contains(x) ==> names_view(subset@).contains(x)) && (forall|
                x: Seq<char>,
            |
                names_view(remaining@).contains(x) ==> waits_within(
                    self@,
                    names_view(remaining@),
                    x,
                )),
    {
        let mut placed: Vec<String> = Vec::new();
        let ghost s = names_view(subset@);
        loop
            invariant
                s == names_view(subset@),
                names_view(placed@).no_duplicates(),
                forall|x: Seq<char>| names_view(placed@).contains(x) ==> s.contains(x),
                respects_edges(self@, names_view(placed@)),
                // each placed name has all its in-subset dependencies placed
                forall|e: int|
                    0 <= e < self@.len() && names_view(placed@).contains((#[trigger] self@[e]).0)
                        && s.contains(self@[e].1) ==> names_view(placed@).contains(self@[e].1),
            decreases s.len() - placed@.len(),
        {
            proof {
                names_view(placed@).unique_seq_to_set();
                s.lemma_cardinality_of_set();
                assert(names_view(placed@).to_set().subset_of(s.to_set()));
                vstd::set_lib::lemma_len_subset(names_view(placed@).to_set(), s.to_set());
            }
            // find the first unplaced name that is ready
            let mut i: usize = 0;
            let mut found = false;
            let mut any_unplaced = false;
            while i < subset.len() && !found
                invariant
                    i <= subset.len(),
                    s == names_view(subset@),
                    found ==> i < subset.len() && !names_view(placed@).contains(s[i as int])
                        && !is_blocked(self@, s, names_view(placed@), s[i as int]),
                    !found ==> (any_unplaced ==> exists|k: int|
                        0 <= k < i && !names_view(placed@).contains(s[k])),
                    !found ==> (!any_unplaced ==> forall|k: int|
                        0 <= k < i ==> names_view(placed@).contains(s[k])),
                    !found ==> forall|k: int|
                        0 <= k < i && !names_view(placed@).contains(#[trigger] s[k]) ==> is_blocked(
                            self@,
                            s,
                            names_view(placed@),
                            s[k],
                        ),
                decreases subset.len() - i + (if found { 0int } else { 1int }),
            {
                proof {
                    assert(s[i as int] == subset@[i as int]@);
                }
                if !contains_name(placed.as_slice(), &subset[i]) {
                    any_unplaced = true;
                    if self.is_ready(&subset[i], subset, placed.as_slice()) {
                        found = true;
                    } else {
                        i = i + 1;
                    }
                } else {
                    i = i + 1;
                }
            }
            if !found {
                if !any_unplaced {
                    proof {
                        assert forall|x: Seq<char>| names_view(placed@).contains(x) <==> s.contains(x) by {
                            if s.contains(x) {
                                let k = choose|k: int| 0 <= k < s.len() && s[k] == x;
                                assert(names_view(placed@).contains(s[k]));
                            }
                        }
                        self.lemma_placed_is_order(s, names_view(placed@));
                    }
                    return Ok(placed);
                }
                proof {
                    self.lemma_stuck_not_schedulable(s, names_view(placed@));
                }
                let ghost pl = names_view(placed@);
                let mut remaining: Vec<String> = Vec::new();
                let mut j: usize = 0;
                while j < subset.len()
                    invariant
                        j <= subset.len(),
                        s == names_view(subset@),
                        pl == names_view(placed@),
                        forall|x: Seq<char>|
                            names_view(remaining@).contains(x) <==> (exists|k: int|
                                0 <= k < j && s[k] == x && !pl.contains(x)),
                    decreases subset.len() - j,
                {
                    let ghost before = names_view(remaining@);
                    proof {
                        assert(s[j as int] == subset@[j as int]@);
                    }
                    let in_placed = contains_name(placed.as_slice(), &subset[j]);
                    let in_remaining = contains_name(remaining.as_slice(), &subset[j]);
                    if !in_placed && !in_remaining {
                        remaining.push(subset[j].clone());
                        assert(names_view(remaining@) =~= before.push(s[j as int]));
                    }
                    proof {
                        let sj = s[j as int];
                        assert forall|x: Seq<char>|
                            names_view(remaining@).contains(x) <==> (exists|k: int|
                                0 <= k < j + 1 && s[k] == x && !pl.contains(x)) by {
                            if x == sj {
                                if !in_placed {
                                    assert(s[j as int] == x && !pl.contains(x));
                                    if in_remaining {
                                        assert(names_view(remaining@) == before);
                                    } else {
                                        assert(names_view(remaining@)[before.len() as int] == x);
                                    }
                                }
                            } else {
                                if names_view(remaining@).contains(x) {
                                    if !in_placed && !in_remaining {
                                        let m = choose|m: int|
                                            0 <= m < names_view(remaining@).len() && names_view(remaining@)[m] == x;
                                        assert(m < before.len());
                                        assert(before[m] == x);
                                    }
                                    assert(before.contains(x));
                                }
                                if exists|k: int| 0 <= k < j + 1 && s[k] == x && !pl.contains(x) {
                                    let k = choose|k: int| 0 <= k < j + 1 && s[k] == x && !pl.contains(x);
                                    assert(k < j);
                                    assert(before.contains(x));
                                    let m = choose|m: int| 0 <= m < before.len() && before[m] == x;
                                    if !in_placed && !in_remaining {
                                        assert(names_view(remaining@)[m] == x);
                                    }
                                }
                            }
                        }
                    }
                    j = j + 1;
                }
                proof {
                    let rv = names_view(remaining@);
                    let k0 = choose|k: int| 0 <= k < s.len() && !pl.contains(s[k]);
                    assert(rv.contains(s[k0]));
                    assert forall|x: Seq<char>| rv.contains(x) implies waits_within(self@, rv, x) by {
                        let k = choose|k: int| 0 <= k < j && s[k] == x && !pl.contains(x);
                        assert(is_blocked(self@, s, pl, s[k]));
                        let e = choose|e: int|
                            0 <= e < self@.len() && (#[trigger] self@[e]).0 == s[k] && s.contains(
                                self@[e].1,
                            ) && !pl.contains(self@[e].1);
                        let m = choose|m: int| 0 <= m < s.len() && s[m] == self@[e].1;
                        assert(rv.contains(self@[e].1));
                    }
                }
                return Err(GraphError::CircularDependency { remaining });
            }
            let ghost old_placed = names_view(placed@);
            let node = subset[i].clone();
            proof {
                assert(node@ == s[i as int]);
            }
            placed.push(node);
            proof {
                let np = names_view(placed@);
                assert(np =~= old_placed.push(s[i as int]));
                assert forall|x: Seq<char>| np.contains(x) implies s.contains(x) by {
                    if np.contains(x) && x != s[i as int] {
                        assert(old_placed.contains(x));
                    }
                }
                assert forall|e: int, a: int, b: int|
                    #![trigger self@[e], np[a], np[b]]
                    0 <= e < self@.len() && 0 <= a < np.len() && 0 <= b < np.len()
                        && np[a] == self@[e].0 && np[b] == self@[e].1
                    implies b < a by {
                    if a == old_placed.len() as int {
                        // the new name: its dependency is in the subset, hence placed before
                        if b == a {
                            assert(s.contains(self@[e].1));
                        } else {
                            assert(old_placed.contains(self@[e].1));
                        }
                    } else if b == old_placed.len() as int {
                        assert(old_placed.contains(self@[e].0));
                        assert(s.contains(self@[e].1));
                        assert(old_placed.contains(self@[e].1));
                    } else {
                        assert(old_placed[a] == np[a] && old_placed[b] == np[b]);
                    }
                }
                np.unique_seq_to_set();
                assert(np.to_set().subset_of(s.to_set()));
                vstd::set_lib::lemma_len_subset(np.to_set(), s.to_set());
                assert forall|e: int|
                    0 <= e < self@.len() && np.contains((#[trigger] self@[e]).0) && s.contains(self@[e].1)
                    implies np.contains(self@[e].1) by {
                    if old_placed.contains(self@[e].0) {
                        assert(old_placed.contains(self@[e].1));
                        let k = choose|k: int| 0 <= k < old_placed.len() && old_placed[k] == self@[e].1;
                        assert(np[k] == self@[e].1);
                    } else {
                        assert(self@[e].0 == s[i as int]);
                        assert(old_placed.contains(self@[e].1));
                        let k = choose|k: int| 0 <= k < old_placed.len() && old_placed[k] == self@[e].1;
                        assert(np[k] == self@[e].1);
                    }
                }
            }
        }
    }

    proof fn lemma_placed_is_order(&self, s: Seq<Seq<char>>, placed: Seq<Seq<char>>)
        requires
            is_execution_order(self@, s, placed),
        ensures
            is_schedulable(self@, s),
    {
    }

    /// When every unplaced name of `s` waits on another unplaced name of `s`, and
    /// at least one is unplaced, no order of `s` exists.
    proof fn lemma_stuck_not_schedulable(&self, s: Seq<Seq<char>>, placed: Seq<Seq<char>>)
        requires
            exists|k: int| 0 <= k < s.len() && !placed.contains(s[k]),
            forall|k: int|
                0 <= k < s.len() && !placed.contains(#[trigger] s[k]) ==> is_blocked(self@, s, placed, s[k]),
        ensures
            !is_schedulable(self@, s),
    {
        if is_schedulable(self@, s) {
            let order = choose|order: Seq<Seq<char>>| is_execution_order(self@, s, order);
            lemma_no_unplaced_prefix(self@, s, placed, order, order.len() as int);
            let k = choose|k: int| 0 <= k < s.len() && !placed.contains(s[k]);
            assert(order.contains(s[k]));
            let m = choose|m: int| 0 <= m < order.len() && order[m] == s[k];
            assert(placed.contains(order[m]));
        }
    }
}

/// In an order of `s`, no position below `n` holds a name outside `placed`, when
/// every unplaced name waits on an unplaced name.
proof fn lemma_no_unplaced_prefix(
    edges: Seq<Edge>,
    s: Seq<Seq<char>>,
    placed: Seq<Seq<char>>,
    order: Seq<Seq<char>>,
    n: int,
)
    requires
        is_execution_order(edges, s, order),
        0 <= n <= order.len(),
        forall|k: int|
            0 <= k < s.len() && !placed.contains(#[trigger] s[k]) ==> is_blocked(edges, s, placed, s[k]),
    ensures
        forall|m: int| 0 <= m < n ==> placed.contains(#[trigger] order[m]),
    decreases n,
{
    if n > 0 {
        lemma_no_unplaced_prefix(edges, s, placed, order, n - 1);
        let m = n - 1;
        if !placed.contains(order[m]) {
            assert(s.contains(order[m]));
            let k = choose|k: int| 0 <= k < s.len() && s[k] == order[m];
            let e = choose|e: int|
                0 <= e < edges.len() && (#[trigger] edges[e]).0 == s[k] && s.contains(edges[e].1)
                    && !placed.contains(edges[e].1);
            assert(order.contains(edges[e].1));
            let j = choose|j: int| 0 <= j < order.len() && order[j] == edges[e].1;
            assert(order[m] == edges[e].0);
            assert(j < m);
            assert(placed.contains(order[j]));
        }
    }
}

/// Position of `x` in `order`.
spec fn index_of(order: Seq<Seq<char>>, x: Seq<char>) -> int {
    choose|m: int| 0 <= m < order.len() && order[m] == x
}

/// Along an edge of a cycle, an order places the next name before the current one.
#[verifier::rlimit(40)]
proof fn lemma_cycle_step(
    edges: Seq<Edge>,
    subset: Seq<Seq<char>>,
    order: Seq<Seq<char>>,
    path: Seq<Seq<char>>,
    k: int,
)
    requires
        is_execution_order(edges, subset, order),
        is_cycle_in(edges, subset, path),
        0 <= k < path.len(),
    ensures
        index_of(order, path[(k + 1) % path.len() as int]) < index_of(order, path[k]),
{
    let k1 = (k + 1) % path.len() as int;
    vstd::arithmetic::div_mod::lemma_mod_pos_bound(k + 1, path.len() as int);
    assert(subset.contains(path[k]));
    assert(subset.contains(path[k1]));
    assert(order.contains(path[k]));
    assert(order.contains(path[k1]));
    let i = index_of(order, path[k]);
    let j = index_of(order, path[k1]);
    assert(has_edge(edges, path[k], path[k1]));
    let e = choose|e: int| 0 <= e < edges.len() && #[trigger] edges[e] == (path[k], path[k1]);
    assert(order[i] == edges[e].0 && order[j] == edges[e].1);
}

/// A cycle through names of `subset` leaves no order for `subset`.
pub proof fn lemma_cycle_not_schedulable(edges: Seq<Edge>, subset: Seq<Seq<char>>, path: Seq<Seq<char>>)
    requires
        is_cycle_in(edges, subset, path),
    ensures
        !is_schedulable(edges, subset),
{
    if is_schedulable(edges, subset) {
        let order = choose|order: Seq<Seq<char>>| is_execution_order(edges, subset, order);
        let len = path.len() as int;
        let pos = |k: int| index_of(order, path[k]);
        assert forall|k: int| 0 <= k < len implies #[trigger] pos((k + 1) % len) < pos(k) by {
            lemma_cycle_step(edges, subset, order, path, k);
        }
        lemma_positions_decrease(len, pos, len);
    }
}

/// Positions that fall at each step around a cycle cannot come back: after `n`
/// steps from the start they lie `n` below it.
proof fn lemma_positions_decrease(len: int, pos: spec_fn(int) -> int, n: int)
    requires
        len > 0,
        0 <= n <= len,
        forall|k: int| 0 <= k < len ==> #[trigger] pos((k + 1) % len) < pos(k),
    ensures
        n < len,
        pos(n) <= pos(0) - n,
    decreases n,
{
    if n > 0 {
        lemma_positions_decrease(len, pos, n - 1);
        let k = n - 1;
        assert(pos((k + 1) % len) < pos(k));
        if n < len {
            vstd::arithmetic::div_mod::lemma_small_mod(n as nat, len as nat);
        } else {
            vstd::arithmetic::div_mod::lemma_mod_self_0(len);
        }
    }
}

} // verus!
