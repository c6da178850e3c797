//! Edges of the agent loop and the coboundary operator δ₀ on a state graph.

use vstd::prelude::*;

verus! {

/// The state that follows state `k` on the closed loop through `n` states.
pub open spec fn loop_next(n: nat, k: int) -> int {
    (k + 1) % (n as int)
}

/// `(k + 1) mod n` for a state `k` of the loop: the next state, or 0 after the last.
pub proof fn lemma_loop_successor(k: int, n: int)
    requires
        0 <= k < n,
    ensures
        (k + 1) % n == if k + 1 < n { k + 1 } else { 0 },
{
    if k + 1 < n {
        vstd::arithmetic::div_mod::lemma_small_mod((k + 1) as nat, n as nat);
    } else {
        vstd::arithmetic::div_mod::lemma_mod_self_0(n);
    }
}

/// `edges` lists the closed loop through `n` states, in order: edge `k` joins
/// state `k` to state `(k + 1) mod n`.
pub open spec fn is_loop_edge_list(n: nat, edges: Seq<(usize, usize)>) -> bool {
    &&& edges.len() == n
    &&& forall|k: int|
        0 <= k < n ==> (#[trigger] edges[k]).0 == k && edges[k].1 == loop_next(n, k)
}

/// The edges of the closed loop through `n` states, in order: edge `k` joins
/// state `k` to state `(k + 1) mod n`, so the last edge returns to state 0.
pub fn loop_edges(n: usize) -> (edges: Vec<(usize, usize)>)
    ensures
        is_loop_edge_list(n as nat, edges@),
{
    let mut edges: Vec<(usize, usize)> = Vec::new();
    let mut k: usize = 0;
    while k < n
        invariant
            k <= n,
            edges@.len() == k,
            forall|t: int|
                0 <= t < k ==> (#[trigger] edges@[t]).0 == t && edges@[t].1 == loop_next(n as nat, t),
        decreases n - k,
    {
        let next: usize = if k + 1 == n { 0 } else { k + 1 };
        proof {
            lemma_loop_successor(k as int, n as int);
        }
        edges.push((k, next));
        k = k + 1;
    }
    edges
}

/// Law: the loop edges form a closed walk through every state.  The target
/// of each edge is a state and is the source of the next edge, the last edge
/// returns to state 0, and no two edges share a target, so every state is
/// entered exactly once.
pub proof fn lemma_loop_is_closed_walk(n: nat)
    requires
        n >= 1,
    ensures
        forall|k: int| 0 <= k < n ==> 0 <= #[trigger] loop_next(n, k) < n,
        forall|k: int| 0 <= k < n - 1 ==> #[trigger] loop_next(n, k) == k + 1,
        loop_next(n, n - 1) == 0,
        forall|k1: int, k2: int|
            0 <= k1 < n && 0 <= k2 < n && #[trigger] loop_next(n, k1) == #[trigger] loop_next(n, k2)
                ==> k1 == k2,
{
    assert forall|k: int| 0 <= k < n implies 0 <= #[trigger] loop_next(n, k) < n && (k < n - 1
        ==> loop_next(n, k) == k + 1) by {
        lemma_loop_successor(k, n as int);
    }
    lemma_loop_successor(n - 1, n as int);
    assert forall|k1: int, k2: int|
        0 <= k1 < n && 0 <= k2 < n && #[trigger] loop_next(n, k1) == #[trigger] loop_next(
            n,
            k2,
        ) implies k1 == k2 by {
        lemma_loop_successor(k1, n as int);
        lemma_loop_successor(k2, n as int);
    }
}

/// Entry `(e, c)` of the coboundary operator δ₀ on `n` vertices: the row of
/// edge `e = (i, j)` holds `+1` at column `j` and `-1` at column `i`, each only
/// where the endpoint is a vertex.  A self-loop `(i, i)` has an all-zero
/// row, since `f(i) − f(i) = 0`.
pub open spec fn incidence_entry(n: nat, e: (usize, usize), c: int) -> int {
    if e.0 == e.1 {
        0
    } else if (e.0 as int) < n && c == e.0 as int {
        -1
    } else if (e.1 as int) < n && c == e.1 as int {
        1
    } else {
        0
    }
}

/// The incidence matrix of δ₀: one row per edge, one column per vertex, with
/// the entries of `incidence_entry`.
pub fn incidence_matrix(num_vertices: usize, edges: &Vec<(usize, usize)>) -> (m: Vec<Vec<i8>>)
    ensures
        m@.len() == edges@.len(),
        forall|r: int| 0 <= r < m@.len() ==> (#[trigger] m@[r])@.len() == num_vertices,
        forall|r: int, c: int|
            0 <= r < m@.len() && 0 <= c < num_vertices ==> (#[trigger] m@[r]@[c]) as int
                == incidence_entry(num_vertices as nat, edges@[r], c),
{
    let mut m: Vec<Vec<i8>> = Vec::new();
    let mut r: usize = 0;
    while r < edges.len()
        invariant
            r <= edges@.len(),
            m@.len() == r,
            forall|t: int| 0 <= t < r ==> (#[trigger] m@[t])@.len() == num_vertices,
            forall|t: int, c: int|
                0 <= t < r && 0 <= c < num_vertices ==> (#[trigger] m@[t]@[c]) as int
                    == incidence_entry(num_vertices as nat, edges@[t], c),
        decreases edges@.len() - r,
    {
        let (i, j) = edges[r];
        let mut row: Vec<i8> = Vec::new();
        let mut c: usize = 0;
        while c < num_vertices
            invariant
                c <= num_vertices,
                row@.len() == c,
                (i, j) == edges@[r as int],
                forall|t: int|
                    0 <= t < c ==> (#[trigger] row@[t]) as int == incidence_entry(
                        num_vertices as nat,
                        edges@[r as int],
                        t,
                    ),
            decreases num_vertices - c,
        {
            let entry: i8 = if i == j {
                0
            } else if c == i {
                -1
            } else if c == j {
                1
            } else {
                0
            };
            row.push(entry);
            c = c + 1;
        }
        m.push(row);
        r = r + 1;
    }
    m
}

/// `Σ_{c < k} coefficient(c) · f[c]` for the row of edge `e` on `n` vertices.
pub open spec fn row_apply(n: nat, e: (usize, usize), f: Seq<int>, k: nat) -> int
    decreases k,
{
    if k == 0 {
        0
    } else {
        row_apply(n, e, f, (k - 1) as nat) + incidence_entry(n, e, k - 1) * f[k - 1]
    }
}

proof fn lemma_row_apply_prefix(n: nat, e: (usize, usize), f: Seq<int>, k: nat)
    requires
        k <= n,
    ensures
        row_apply(n, e, f, k) == (if (e.1 as int) < k { f[e.1 as int] } else { 0 }) - (if (e.0 as int)
            < k {
            f[e.0 as int]
        } else {
            0
        }),
    decreases k,
{
    if k > 0 {
        lemma_row_apply_prefix(n, e, f, (k - 1) as nat);
    }
}

/// Law (coboundary formula): δ₀ sends a vertex function `f` to the edge
/// function `(δ₀ f)(i, j) = f(j) − f(i)`, for every edge whose two endpoints
/// are vertices (a self-loop gives `f(i) − f(i) = 0`).
pub proof fn lemma_coboundary_formula(n: nat, e: (usize, usize), f: Seq<int>)
    requires
        f.len() == n,
        (e.0 as int) < n,
        (e.1 as int) < n,
    ensures
        row_apply(n, e, f, n) == f[e.1 as int] - f[e.0 as int],
{
    lemma_row_apply_prefix(n, e, f, n);
}

/// Law: constant vertex functions lie in the kernel of δ₀ — the row of every
/// edge between vertices sums to zero.
pub proof fn lemma_constants_in_kernel(n: nat, e: (usize, usize), a: int)
    requires
        (e.0 as int) < n,
        (e.1 as int) < n,
    ensures
        row_apply(n, e, Seq::new(n, |c: int| a), n) == 0,
{
    lemma_coboundary_formula(n, e, Seq::new(n, |c: int| a));
}



/// The matrix of edge differences `f ↦ f(i) − f(j)` for edges `(i, j)`: the
/// negation of the incidence matrix of δ₀.
pub fn difference_matrix(num_vertices: usize, edges: &Vec<(usize, usize)>) -> (m: Vec<Vec<i8>>)
    ensures
        m@.len() == edges@.len(),
        forall|r: int| 0 <= r < m@.len() ==> (#[trigger] m@[r])@.len() == num_vertices,
        forall|r: int, c: int|
            0 <= r < m@.len() && 0 <= c < num_vertices ==> (#[trigger] m@[r]@[c]) as int
                == -incidence_entry(num_vertices as nat, edges@[r], c),
{
    let inc = incidence_matrix(num_vertices, edges);
    let mut m: Vec<Vec<i8>> = Vec::new();
    let mut r: usize = 0;
    while r < inc.len()
        invariant
            r <= inc@.len(),
            inc@.len() == edges@.len(),
            forall|t: int| 0 <= t < inc@.len() ==> (#[trigger] inc@[t])@.len() == num_vertices,
            forall|t: int, c: int|
                0 <= t < inc@.len() && 0 <= c < num_vertices ==> (#[trigger] inc@[t]@[c]) as int
                    == incidence_entry(num_vertices as nat, edges@[t], c),
            m@.len() == r,
            forall|t: int| 0 <= t < r ==> (#[trigger] m@[t])@.len() == num_vertices,
            forall|t: int, c: int|
                0 <= t < r && 0 <= c < num_vertices ==> (#[trigger] m@[t]@[c]) as int
                    == -incidence_entry(num_vertices as nat, edges@[t], c),
        decreases inc@.len() - r,
    {
        let mut row: Vec<i8> = Vec::new();
        let mut c: usize = 0;
        while c < num_vertices
            invariant
                c <= num_vertices,
                r < inc@.len(),
                inc@[r as int]@.len() == num_vertices,
                forall|t: int|
                    0 <= t < num_vertices ==> (#[trigger] inc@[r as int]@[t]) as int == incidence_entry(
                        num_vertices as nat,
                        edges@[r as int],
                        t,
                    ),
                row@.len() == c,
                forall|t: int|
                    0 <= t < c ==> (#[trigger] row@[t]) as int == -incidence_entry(
                        num_vertices as nat,
                        edges@[r as int],
                        t,
                    ),
            decreases num_vertices - c,
        {
            let entry: i8 = inc[r][c];
            let negated: i8 = if entry == 1 {
                -1
            } else if entry == -1 {
                1
            } else {
                0
            };
            row.push(negated);
            c = c + 1;
        }
        m.push(row);
        r = r + 1;
    }
    m
}

/// `Σ_{c < k} −coefficient(c) · f[c]` for the row of edge `e`: the first `k`
/// terms of the difference row applied to `f`.
pub open spec fn difference_apply(n: nat, e: (usize, usize), f: Seq<int>, k: nat) -> int
    decreases k,
{
    if k == 0 {
        0
    } else {
        difference_apply(n, e, f, (k - 1) as nat) + (-incidence_entry(n, e, k - 1)) * f[k - 1]
    }
}

proof fn lemma_difference_is_negated(n: nat, e: (usize, usize), f: Seq<int>, k: nat)
    ensures
        difference_apply(n, e, f, k) == -row_apply(n, e, f, k),
    decreases k,
{
    if k > 0 {
        lemma_difference_is_negated(n, e, f, (k - 1) as nat);
        let a = incidence_entry(n, e, k - 1);
        assert((-a) * f[k - 1] == -(a * f[k - 1])) by (nonlinear_arith);
    }
}

/// Law: the difference matrix sends a vertex function `f` to the edge
/// function `δ(i, j) = f(i) − f(j)`, for every edge between vertices; so the
/// edge values `δ` are a coboundary exactly when this matrix maps some `f`
/// onto them.
pub proof fn lemma_difference_formula(n: nat, e: (usize, usize), f: Seq<int>)
    requires
        f.len() == n,
        (e.0 as int) < n,
        (e.1 as int) < n,
    ensures
        difference_apply(n, e, f, n) == f[e.0 as int] - f[e.1 as int],
{
    lemma_difference_is_negated(n, e, f, n);
    lemma_coboundary_formula(n, e, f);
}

/// `Σ_{t < k} (g[(t + 1) mod n] − g[t])`: the first `k` increments of a vertex
/// function `g` along the closed loop through `n` states.
pub open spec fn circulation(n: nat, g: Seq<int>, k: nat) -> int
    decreases k,
{
    if k == 0 {
        0
    } else {
        circulation(n, g, (k - 1) as nat) + (g[loop_next(n, k - 1)] - g[k - 1])
    }
}

proof fn lemma_circulation_prefix(n: nat, g: Seq<int>, k: nat)
    requires
        1 <= n,
        k < n,
    ensures
        circulation(n, g, k) == g[k as int] - g[0],
    decreases k,
{
    if k > 0 {
        lemma_circulation_prefix(n, g, (k - 1) as nat);
        lemma_loop_successor(k - 1, n as int);
    }
}

/// Law (discrete Stokes): the increments of any vertex function around the
/// closed loop add up to zero — an exact 1-form has zero holonomy.
pub proof fn lemma_circulation_vanishes(n: nat, g: Seq<int>)
    requires
        1 <= n,
    ensures
        circulation(n, g, n) == 0,
{
    lemma_circulation_prefix(n, g, (n - 1) as nat);
    lemma_loop_successor(n - 1, n as int);
}

/// `m` is the `n × n` coboundary matrix of the loop through `n` states: row
/// `r` holds `+1` at column `r` and `-1` at column `(r + 1) mod n` (a zero row
/// when the two coincide), i.e. the incidence row of the edge
/// `(r + 1) mod n → r`.
pub open spec fn is_loop_coboundary(n: nat, m: Seq<Vec<i8>>) -> bool {
    &&& m.len() == n
    &&& forall|r: int| 0 <= r < n ==> (#[trigger] m[r])@.len() == n
    &&& forall|r: int, c: int|
        0 <= r < n && 0 <= c < n ==> (#[trigger] m[r]@[c]) as int == incidence_entry(
            n,
            (loop_next(n, r) as usize, r as usize),
            c,
        )
}

/// The coboundary matrix of the loop through `n` states (see
/// `is_loop_coboundary`).
pub fn loop_coboundary_matrix(n: usize) -> (m: Vec<Vec<i8>>)
    ensures
        is_loop_coboundary(n as nat, m@),
{
    let forward = loop_edges(n);
    let mut reversed: Vec<(usize, usize)> = Vec::new();
    let mut k: usize = 0;
    while k < n
        invariant
            k <= n,
            forward@.len() == n,
            forall|t: int|
                0 <= t < n ==> (#[trigger] forward@[t]).0 == t && forward@[t].1 == loop_next(
                    n as nat,
                    t,
                ),
            reversed@.len() == k,
            forall|t: int|
                0 <= t < k ==> #[trigger] reversed@[t] == (loop_next(n as nat, t) as usize, t as usize),
        decreases n - k,
    {
        let (a, b) = forward[k];
        reversed.push((b, a));
        k = k + 1;
    }
    incidence_matrix(n, &reversed)
}

/// Law: the image of δ₀ carries no holonomy around the loop.  Row `r` of
/// the loop coboundary sends `f` to `f[r] − f[(r + 1) mod n]`, and
/// these values sum to zero over the loop.
pub proof fn lemma_loop_coboundary_exact(n: nat, f: Seq<int>)
    requires
        1 <= n <= usize::MAX,
        f.len() == n,
    ensures
        forall|r: int|
            0 <= r < n ==> #[trigger] row_apply(n, (loop_next(n, r) as usize, r as usize), f, n)
                == f[r] - f[loop_next(n, r)],
        circulation(n, f, n) == 0,
{
    assert forall|r: int| 0 <= r < n implies #[trigger] row_apply(
        n,
        (loop_next(n, r) as usize, r as usize),
        f,
        n,
    ) == f[r] - f[loop_next(n, r)] by {
        lemma_loop_successor(r, n as int);
        let e = (loop_next(n, r) as usize, r as usize);
        assert(e.0 as int == loop_next(n, r) && e.1 as int == r);
        lemma_coboundary_formula(n, e, f);
    }
    lemma_circulation_vanishes(n, f);
}


/// Both endpoints of `e` are among the `n` vertices.
pub open spec fn edge_in_range(n: nat, e: (usize, usize)) -> bool {
    (e.0 as int) < n && (e.1 as int) < n
}

/// The indices, in order, of the edges among the first `k` whose endpoints
/// are both among the `n` vertices.
pub open spec fn in_range_indices(n: nat, edges: Seq<(usize, usize)>, k: nat) -> Seq<int>
    decreases k,
{
    if k == 0 {
        Seq::empty()
    } else {
        let rest = in_range_indices(n, edges, (k - 1) as nat);
        if edge_in_range(n, edges[k - 1]) {
            rest.push(k - 1)
        } else {
            rest
        }
    }
}

/// The indices, in order, of the edges whose endpoints are both among the
/// `num_vertices` vertices; only these edges can be checked against a vertex
/// function.
pub fn in_range_edge_indices(num_vertices: usize, edges: &Vec<(usize, usize)>) -> (ks: Vec<usize>)
    ensures
        ks@.len() == in_range_indices(num_vertices as nat, edges@, edges@.len()).len(),
        forall|t: int|
            0 <= t < ks@.len() ==> #[trigger] ks@[t] as int == in_range_indices(
                num_vertices as nat,
                edges@,
                edges@.len(),
            )[t],
{
    let mut ks: Vec<usize> = Vec::new();
    let mut k: usize = 0;
    while k < edges.len()
        invariant
            k <= edges@.len(),
            ks@.len() == in_range_indices(num_vertices as nat, edges@, k as nat).len(),
            forall|t: int|
                0 <= t < ks@.len() ==> #[trigger] ks@[t] as int == in_range_indices(
                    num_vertices as nat,
                    edges@,
                    k as nat,
                )[t],
        decreases edges@.len() - k,
    {
        let (i, j) = edges[k];
        if i < num_vertices && j < num_vertices {
            ks.push(k);
        }
        k = k + 1;
    }
    ks
}

/// Law: exactly the in-range edges are kept, each once and in order.
pub proof fn lemma_in_range_indices(n: nat, edges: Seq<(usize, usize)>, k: nat)
    requires
        k <= edges.len(),
    ensures
        forall|t: int|
            0 <= t < in_range_indices(n, edges, k).len() ==> 0 <= #[trigger] in_range_indices(
                n,
                edges,
                k,
            )[t] < k && edge_in_range(n, edges[in_range_indices(n, edges, k)[t]]),
        forall|t1: int, t2: int|
            0 <= t1 < t2 < in_range_indices(n, edges, k).len() ==> #[trigger] in_range_indices(
                n,
                edges,
                k,
            )[t1] < #[trigger] in_range_indices(n, edges, k)[t2],
        forall|e: int|
            0 <= e < k && edge_in_range(n, #[trigger] edges[e]) ==> in_range_indices(
                n,
                edges,
                k,
            ).contains(e),
    decreases k,
{
    if k > 0 {
        lemma_in_range_indices(n, edges, (k - 1) as nat);
        let rest = in_range_indices(n, edges, (k - 1) as nat);
        let cur = in_range_indices(n, edges, k);
        assert forall|e: int| 0 <= e < k && edge_in_range(n, #[trigger] edges[e]) implies cur.contains(
            e,
        ) by {
            if e < k - 1 {
                assert(rest.contains(e));
                let t = choose|t: int| 0 <= t < rest.len() && rest[t] == e;
                assert(cur[t] == e);
            } else {
                assert(cur[cur.len() - 1] == e);
            }
        }
        assert forall|t1: int, t2: int| 0 <= t1 < t2 < cur.len() implies #[trigger] cur[t1]
            < #[trigger] cur[t2] by {
            if t2 < rest.len() {
                assert(cur[t1] == rest[t1] && cur[t2] == rest[t2]);
            } else {
                assert(cur[t1] == rest[t1]);
            }
        }
        assert forall|t: int| 0 <= t < cur.len() implies 0 <= #[trigger] cur[t] < k && edge_in_range(
            n,
            edges[cur[t]],
        ) by {
            if t < rest.len() {
                assert(cur[t] == rest[t]);
            }
        }
    }
}

} // verus!
