//! The navigator: shortest-path search over the grid with eight-directional
//! movement, orthogonal steps cheaper than diagonal ones, and a pluggable
//! rule letting the destination cell be entered even while blocked.

use vstd::prelude::*;
use crate::grid::{Grid, Point, adjacent};
use crate::rng::{Rng, spec_advance, spec_advance_n, spec_range};

verus! {

/// Cost of one orthogonal step, in hundredths.
pub const ORTHOGONAL_COST: u64 = 100;

/// Cost of one diagonal step, in hundredths.
pub const DIAGONAL_COST: u64 = 145;

/// The rule for entering a cell while travelling toward `dest`: the cell
/// must lie in the interior band of the grid, and must be unblocked — except
/// that when `dest_can_block` is false the destination itself may be entered
/// even while blocked (so an actor can path toward, but never through, an
/// occupied cell).
pub open spec fn spec_exit_valid(g: Grid, dest: Point, dest_can_block: bool, c: Point) -> bool {
    &&& 1 <= c.x <= g.width - 1
    &&& 1 <= c.y <= g.height - 1
    &&& ((!dest_can_block && c == dest) || !g.spec_blocked_at(c))
}

/// The entry rule over bare coordinates, for candidate cells that may lie
/// outside any cell's range.
pub open spec fn spec_exit_valid_xy(
    g: Grid,
    dest: Point,
    dest_can_block: bool,
    x: int,
    y: int,
) -> bool {
    &&& 1 <= x <= g.width - 1
    &&& 1 <= y <= g.height - 1
    &&& ((!dest_can_block && x == dest.x && y == dest.y) || !g.spec_blocked_at(
        Point { x: x as i32, y: y as i32 },
    ))
}

/// The two entry-rule forms agree on every cell.
pub proof fn lemma_exit_valid_xy(g: Grid, dest: Point, dest_can_block: bool, c: Point)
    ensures
        spec_exit_valid(g, dest, dest_can_block, c) == spec_exit_valid_xy(
            g,
            dest,
            dest_can_block,
            c.x as int,
            c.y as int,
        ),
{
    if 1 <= c.x && c.x <= g.width - 1 && 1 <= c.y && c.y <= g.height - 1 {
        assert(Point { x: (c.x as int) as i32, y: (c.y as int) as i32 } == c);
    }
}

/// A well-formed travel route: it starts at `from`, ends at `at`, moves one
/// king-move at a time, and every cell after the start obeys the entry rule
/// toward `dest`.
pub open spec fn search_path_ok(
    g: Grid,
    dest: Point,
    dest_can_block: bool,
    path: Seq<Point>,
    from: Point,
    at: Point,
) -> bool {
    &&& path.len() >= 1
    &&& path[0] == from
    &&& path[path.len() - 1] == at
    &&& forall|i: int| 1 <= i < path.len() ==> adjacent(path[i - 1], #[trigger] path[i])
    &&& forall|i: int| 1 <= i < path.len() ==> spec_exit_valid(g, dest, dest_can_block, path[i])
}

/// A complete path from `from` to `to`.
pub open spec fn valid_path(
    g: Grid,
    path: Seq<Point>,
    from: Point,
    to: Point,
    dest_can_block: bool,
) -> bool {
    search_path_ok(g, to, dest_can_block, path, from, to)
}

/// Whether any actual route (at least one real step) joins the two cells.
pub open spec fn route_exists(g: Grid, from: Point, to: Point, dest_can_block: bool) -> bool {
    exists|p: Seq<Point>|
        #[trigger] valid_path(g, p, from, to, dest_can_block) && p.len() >= 2
}

/// The cost of one step between two cells: diagonal when both coordinates
/// change, orthogonal otherwise.
pub open spec fn step_cost(a: Point, b: Point) -> int {
    if a.x != b.x && a.y != b.y {
        DIAGONAL_COST as int
    } else {
        ORTHOGONAL_COST as int
    }
}

/// The cost of a route: the sum of its step costs.
pub open spec fn route_cost(p: Seq<Point>) -> int
    decreases p.len(),
{
    if p.len() <= 1 {
        0
    } else {
        route_cost(p.drop_last()) + step_cost(p[p.len() - 2], p[p.len() - 1])
    }
}

/// Every route costs at least one orthogonal step per step taken.
proof fn lemma_route_cost_bounds(p: Seq<Point>)
    ensures
        p.len() >= 1 ==> route_cost(p) >= ORTHOGONAL_COST * (p.len() - 1),
        route_cost(p) >= 0,
    decreases p.len(),
{
    if p.len() > 1 {
        lemma_route_cost_bounds(p.drop_last());
    }
}

/// A route costs at least as much as any of its prefixes.
proof fn lemma_route_cost_prefix(p: Seq<Point>, j: int)
    requires
        0 <= j <= p.len(),
    ensures
        route_cost(p.subrange(0, j)) <= route_cost(p),
    decreases p.len() - j,
{
    if j < p.len() {
        if j == p.len() - 1 {
            assert(p.subrange(0, p.len() as int) =~= p);
            assert(p.subrange(0, j) =~= p.drop_last());
            lemma_route_cost_bounds(p);
        } else {
            lemma_route_cost_prefix(p.drop_last(), j);
            assert(p.drop_last().subrange(0, j) =~= p.subrange(0, j));
            lemma_route_cost_bounds(p);
        }
    } else {
        assert(p.subrange(0, j) =~= p);
    }
}

/// The cell stored at row-major index `i`.
pub open spec fn cell_of(g: Grid, i: int) -> Point {
    Point { x: (i % (g.width as int)) as i32, y: (i / (g.width as int)) as i32 }
}

/// Indexing an in-bounds cell and reading the cell back round-trip.
pub proof fn lemma_idx_cell(g: Grid, p: Point)
    requires
        g.wf(),
        g.spec_point_valid(p),
    ensures
        cell_of(g, g.spec_idx(p.x as int, p.y as int)) == p,
        0 <= g.spec_idx(p.x as int, p.y as int) < g.width * g.height,
{
    let w = g.width as int;
    let idx = g.spec_idx(p.x as int, p.y as int);
    vstd::arithmetic::div_mod::lemma_fundamental_div_mod_converse(
        idx,
        w,
        p.y as int,
        p.x as int,
    );
    g.lemma_idx_bounds(p);
}

/// How many entries of a mask are set.
pub open spec fn count_true(s: Seq<bool>) -> int
    decreases s.len(),
{
    if s.len() == 0 {
        0
    } else {
        count_true(s.drop_last()) + if s.last() {
            1int
        } else {
            0int
        }
    }
}

proof fn lemma_count_bounds(s: Seq<bool>)
    ensures
        0 <= count_true(s) <= s.len(),
    decreases s.len(),
{
    if s.len() > 0 {
        lemma_count_bounds(s.drop_last());
    }
}

proof fn lemma_count_zero(s: Seq<bool>)
    requires
        forall|j: int| 0 <= j < s.len() ==> !s[j],
    ensures
        count_true(s) == 0,
    decreases s.len(),
{
    if s.len() > 0 {
        lemma_count_zero(s.drop_last());
    }
}

proof fn lemma_count_update(s: Seq<bool>, i: int)
    requires
        0 <= i < s.len(),
        !s[i],
    ensures
        count_true(s.update(i, true)) == count_true(s) + 1,
    decreases s.len(),
{
    let u = s.update(i, true);
    if i == s.len() - 1 {
        assert(u.drop_last() =~= s.drop_last());
    } else {
        assert(u.drop_last() =~= s.drop_last().update(i, true));
        lemma_count_update(s.drop_last(), i);
    }
}

proof fn lemma_count_full(s: Seq<bool>)
    requires
        count_true(s) == s.len(),
    ensures
        forall|j: int| 0 <= j < s.len() ==> s[j],
    decreases s.len(),
{
    if s.len() > 0 {
        lemma_count_bounds(s.drop_last());
        assert(s.last());
        assert(count_true(s.drop_last()) == s.drop_last().len());
        lemma_count_full(s.drop_last());
        assert forall|j: int| 0 <= j < s.len() implies s[j] by {
            if j < s.len() - 1 {
                assert(s.drop_last()[j] == s[j]);
            }
        }
    }
}

/// Checks the entry rule for the coordinate pair `(x, y)`: exactly when the
/// rule holds, the cell is handed back.
fn exit_valid(g: &Grid, dest: &Point, dest_can_block: bool, x: i64, y: i64) -> (r: Option<
    Point,
>)
    requires
        g.wf(),
    ensures
        match r {
            Some(c) => c.x == x && c.y == y && spec_exit_valid(*g, *dest, dest_can_block, c),
            None => !spec_exit_valid_xy(*g, *dest, dest_can_block, x as int, y as int),
        },
{
    if x < 1 || x > g.width as i64 - 1 || y < 1 || y > g.height as i64 - 1 {
        return None;
    }
    let c = Point { x: x as i32, y: y as i32 };
    if !dest_can_block && c.x == dest.x && c.y == dest.y {
        return Some(c);
    }
    if !g.blocked_at(&c) {
        Some(c)
    } else {
        None
    }
}

/// The eight candidate steps out of a cell with their costs: the four
/// orthogonal neighbours first, then the four diagonals.
fn neighbour_offsets() -> (r: Vec<(i64, i64, u64)>)
    ensures
        r@ == seq![
            (-1int as i64, 0int as i64, ORTHOGONAL_COST),
            (1int as i64, 0int as i64, ORTHOGONAL_COST),
            (0int as i64, -1int as i64, ORTHOGONAL_COST),
            (0int as i64, 1int as i64, ORTHOGONAL_COST),
            (-1int as i64, -1int as i64, DIAGONAL_COST),
            (1int as i64, -1int as i64, DIAGONAL_COST),
            (-1int as i64, 1int as i64, DIAGONAL_COST),
            (1int as i64, 1int as i64, DIAGONAL_COST),
        ],
{
    let mut v: Vec<(i64, i64, u64)> = Vec::new();
    v.push((-1, 0, ORTHOGONAL_COST));
    v.push((1, 0, ORTHOGONAL_COST));
    v.push((0, -1, ORTHOGONAL_COST));
    v.push((0, 1, ORTHOGONAL_COST));
    v.push((-1, -1, DIAGONAL_COST));
    v.push((1, -1, DIAGONAL_COST));
    v.push((-1, 1, DIAGONAL_COST));
    v.push((1, 1, DIAGONAL_COST));
    proof {
        assert(v@ =~= seq![
            (-1int as i64, 0int as i64, ORTHOGONAL_COST),
            (1int as i64, 0int as i64, ORTHOGONAL_COST),
            (0int as i64, -1int as i64, ORTHOGONAL_COST),
            (0int as i64, 1int as i64, ORTHOGONAL_COST),
            (-1int as i64, -1int as i64, DIAGONAL_COST),
            (1int as i64, -1int as i64, DIAGONAL_COST),
            (-1int as i64, 1int as i64, DIAGONAL_COST),
            (1int as i64, 1int as i64, DIAGONAL_COST),
        ]);
    }
    v
}

/// The facts about the offset table the search invariants carry.
spec fn offsets_ok(offsets: Seq<(i64, i64, u64)>) -> bool {
    offsets == seq![
        (-1int as i64, 0int as i64, ORTHOGONAL_COST),
        (1int as i64, 0int as i64, ORTHOGONAL_COST),
        (0int as i64, -1int as i64, ORTHOGONAL_COST),
        (0int as i64, 1int as i64, ORTHOGONAL_COST),
        (-1int as i64, -1int as i64, DIAGONAL_COST),
        (1int as i64, -1int as i64, DIAGONAL_COST),
        (-1int as i64, 1int as i64, DIAGONAL_COST),
        (1int as i64, 1int as i64, DIAGONAL_COST),
    ]
}

/// Copies a route cell by cell.
pub(crate) fn copy_path(p: &Vec<Point>) -> (r: Vec<Point>)
    ensures
        r@ == p@,
{
    let mut out: Vec<Point> = Vec::new();
    let mut i: usize = 0;
    while i < p.len()
        invariant
            i <= p.len(),
            out@ == p@.subrange(0, i as int),
        decreases p.len() - i,
    {
        out.push(p[i]);
        i = i + 1;
    }
    proof {
        assert(out@ == p@.subrange(0, p@.len() as int));
        assert(p@.subrange(0, p@.len() as int) == p@);
    }
    out
}

/// Invariant of the search tables: every recorded cell carries a well-formed
/// route from the start to that cell, with its cost bounds.
spec fn tables_ok(
    g: Grid,
    dest: Point,
    dest_can_block: bool,
    from: Point,
    paths: Seq<Option<Vec<Point>>>,
    dist: Seq<u64>,
    visited: Seq<bool>,
) -> bool {
    &&& paths.len() == g.width * g.height
    &&& dist.len() == g.width * g.height
    &&& visited.len() == g.width * g.height
    &&& forall|i: int|
        0 <= i < paths.len() ==> match #[trigger] paths[i] {
            Some(p) => {
                &&& search_path_ok(g, dest, dest_can_block, p@, from, cell_of(g, i))
                &&& dist[i] >= ORTHOGONAL_COST * (p@.len() - 1)
                &&& dist[i] < 0x1_0000_0000 + DIAGONAL_COST
            },
            None => true,
        }
}

/// The exhaustiveness invariants of the search: a visited cell's valid
/// neighbours are all recorded, visited cells are recorded, and the start is.
spec fn reach_ok(
    g: Grid,
    dest: Point,
    dest_can_block: bool,
    from: Point,
    paths: Seq<Option<Vec<Point>>>,
    visited: Seq<bool>,
) -> bool {
    &&& forall|i: int, c: Point|
        #![trigger visited[i], spec_exit_valid(g, dest, dest_can_block, c)]
        0 <= i < paths.len() && visited[i] && adjacent(cell_of(g, i), c) && spec_exit_valid(
            g,
            dest,
            dest_can_block,
            c,
        ) ==> paths[g.spec_idx(c.x as int, c.y as int)] is Some
    &&& forall|i: int| 0 <= i < paths.len() && #[trigger] visited[i] ==> paths[i] is Some
    &&& paths[g.spec_idx(from.x as int, from.y as int)] is Some
}

/// When every recorded cell has been visited, every cell a route from the
/// start can reach is recorded.
proof fn lemma_route_reached(
    g: Grid,
    dest: Point,
    dest_can_block: bool,
    from: Point,
    paths: Seq<Option<Vec<Point>>>,
    visited: Seq<bool>,
    p: Seq<Point>,
    k: int,
)
    requires
        g.wf(),
        g.spec_point_valid(from),
        paths.len() == g.width * g.height,
        visited.len() == g.width * g.height,
        reach_ok(g, dest, dest_can_block, from, paths, visited),
        forall|i: int| 0 <= i < paths.len() && #[trigger] paths[i] is Some ==> visited[i],
        search_path_ok(g, dest, dest_can_block, p, from, p[p.len() - 1]),
        0 <= k < p.len(),
    ensures
        g.spec_point_valid(p[k]),
        paths[g.spec_idx(p[k].x as int, p[k].y as int)] is Some,
    decreases k,
{
    if k == 0 {
        assert(p[0] == from);
        lemma_idx_cell(g, from);
    } else {
        lemma_route_reached(g, dest, dest_can_block, from, paths, visited, p, k - 1);
        let prev = p[k - 1];
        let here = p[k];
        let prev_idx = g.spec_idx(prev.x as int, prev.y as int);
        lemma_idx_cell(g, prev);
        assert(visited[prev_idx]);
        assert(adjacent(prev, here));
        assert(spec_exit_valid(g, dest, dest_can_block, here));
        assert(cell_of(g, prev_idx) == prev);
        assert(paths[g.spec_idx(here.x as int, here.y as int)] is Some);
        assert(g.spec_point_valid(here));
    }
}

/// A row-major index names an in-bounds cell, and indexing that cell gives
/// the index back.
proof fn lemma_cell_of_valid(g: Grid, i: int)
    requires
        g.wf(),
        0 <= i < g.width * g.height,
    ensures
        g.spec_point_valid(cell_of(g, i)),
        g.spec_idx(cell_of(g, i).x as int, cell_of(g, i).y as int) == i,
{
    let w = g.width as int;
    let h = g.height as int;
    vstd::arithmetic::div_mod::lemma_mod_pos_bound(i, w);
    vstd::arithmetic::div_mod::lemma_div_pos_is_pos(i, w);
    assert((h - 1) * w + (w - 1) == w * h - 1) by (nonlinear_arith);
    vstd::arithmetic::div_mod::lemma_fundamental_div_mod_converse(
        w * h - 1,
        w,
        h - 1,
        w - 1,
    );
    vstd::arithmetic::div_mod::lemma_div_is_ordered(i, w * h - 1, w);
    assert(i / w <= h - 1);
    vstd::arithmetic::div_mod::lemma_fundamental_div_mod(i, w);
}

/// The cost side of the search tables: every recorded distance is its
/// stored route's exact cost; a visited cell's distance is optimal over
/// all routes to it, bounds each valid neighbour's distance by one more
/// step, and never exceeds an unvisited recorded distance.
spec fn cost_tables_ok(
    g: Grid,
    dest: Point,
    dest_can_block: bool,
    from: Point,
    paths: Seq<Option<Vec<Point>>>,
    dist: Seq<u64>,
    visited: Seq<bool>,
) -> bool {
    &&& forall|i: int|
        0 <= i < paths.len() ==> match #[trigger] paths[i] {
            Some(p) => dist[i] == route_cost(p@),
            None => true,
        }
    &&& forall|i: int, c: Point|
        #![trigger visited[i], spec_exit_valid(g, dest, dest_can_block, c)]
        0 <= i < paths.len() && visited[i] && adjacent(cell_of(g, i), c) && spec_exit_valid(
            g,
            dest,
            dest_can_block,
            c,
        ) ==> dist[g.spec_idx(c.x as int, c.y as int)] <= dist[i] + step_cost(cell_of(g, i), c)
    &&& forall|v: int, u: int|
        #![trigger visited[v], dist[u]]
        0 <= v < paths.len() && 0 <= u < paths.len() && visited[v] && !visited[u] && paths[u]
            is Some ==> dist[v] <= dist[u]
    &&& forall|i: int, r: Seq<Point>|
        #![trigger visited[i], search_path_ok(g, dest, dest_can_block, r, from, cell_of(g, i))]
        0 <= i < paths.len() && visited[i] && search_path_ok(
            g,
            dest,
            dest_can_block,
            r,
            from,
            cell_of(g, i),
        ) ==> dist[i] <= route_cost(r)
}

/// Walking a route toward a cell about to be selected: its first unvisited
/// cell (if any before the end) already carries a distance no worse than
/// the route's cost up to it, so the minimal unvisited distance bounds the
/// route's cost.
#[verifier::rlimit(100)]
#[verifier::spinoff_prover]
proof fn lemma_selected_optimal_walk(
    g: Grid,
    dest: Point,
    dest_can_block: bool,
    from: Point,
    paths: Seq<Option<Vec<Point>>>,
    dist: Seq<u64>,
    visited: Seq<bool>,
    sel: int,
    r: Seq<Point>,
    j: int,
)
    requires
        g.wf(),
        g.spec_point_valid(from),
        paths.len() == g.width * g.height,
        dist.len() == g.width * g.height,
        visited.len() == g.width * g.height,
        cost_tables_ok(g, dest, dest_can_block, from, paths, dist, visited),
        reach_ok(g, dest, dest_can_block, from, paths, visited),
        0 <= sel < paths.len(),
        paths[sel] is Some,
        !visited[sel],
        forall|u: int|
            0 <= u < paths.len() && #[trigger] paths[u] is Some && !visited[u] ==> dist[sel]
                <= dist[u],
        dist[g.spec_idx(from.x as int, from.y as int)] == 0,
        search_path_ok(g, dest, dest_can_block, r, from, cell_of(g, sel)),
        0 <= j < r.len(),
        forall|k: int| 0 <= k < j ==> visited[g.spec_idx((#[trigger] r[k]).x as int, r[k].y as int)],
        forall|k: int| 0 <= k < j ==> g.spec_point_valid(#[trigger] r[k]),
    ensures
        dist[sel] <= route_cost(r),
    decreases r.len() - j,
{
    let cj = r[j];
    if j == 0 {
        assert(cj == from);
    }
    assert(g.spec_point_valid(cj));
    let ij = g.spec_idx(cj.x as int, cj.y as int);
    lemma_idx_cell(g, cj);
    if !visited[ij] {
        // The first unvisited cell on the route: it is recorded, and its
        // distance is bounded by the route's cost up to it.
        if j == 0 {
            assert(paths[ij] is Some);
            assert(dist[sel] <= dist[ij]);
            lemma_route_cost_bounds(r);
        } else {
            let cp = r[j - 1];
            let ip = g.spec_idx(cp.x as int, cp.y as int);
            lemma_idx_cell(g, cp);
            assert(visited[ip]);
            assert(adjacent(cp, cj) && spec_exit_valid(g, dest, dest_can_block, cj));
            assert(paths[ij] is Some);
            assert(dist[ij] <= dist[ip] + step_cost(cp, cj));
            let prefix = r.subrange(0, j);
            assert(search_path_ok(g, dest, dest_can_block, prefix, from, cp)) by {
                assert(prefix[0] == r[0]);
                assert(prefix[prefix.len() - 1] == r[j - 1]);
                assert(forall|t: int|
                    1 <= t < prefix.len() ==> adjacent(prefix[t - 1], #[trigger] prefix[t]));
                assert(forall|t: int|
                    1 <= t < prefix.len() ==> spec_exit_valid(
                        g,
                        dest,
                        dest_can_block,
                        #[trigger] prefix[t],
                    ));
            }
            assert(dist[ip] <= route_cost(prefix));
            let prefix2 = r.subrange(0, j + 1);
            assert(prefix2.drop_last() =~= prefix);
            assert(prefix2[prefix2.len() - 2] == cp && prefix2[prefix2.len() - 1] == cj);
            assert(route_cost(prefix2) == route_cost(prefix) + step_cost(cp, cj));
            lemma_route_cost_prefix(r, j + 1);
            assert(dist[sel] <= dist[ij]);
        }
    } else {
        // Everything up to and including j is visited; the route's end is
        // the unvisited selected cell, so the walk ends strictly before it.
        if j == r.len() - 1 {
            assert(cj == cell_of(g, sel));
            lemma_cell_of_valid(g, sel);
            assert(ij == sel);
            assert(false);
        } else {
            lemma_selected_optimal_walk(
                g,
                dest,
                dest_can_block,
                from,
                paths,
                dist,
                visited,
                sel,
                r,
                j + 1,
            );
        }
    }
}

/// The cost tables while one freshly visited cell's offsets are being
/// relaxed: everything of `cost_tables_ok` except that cell's own
/// neighbour bounds, which the sweep is in the middle of establishing.
#[verifier::opaque]
spec fn cost_tables_mid(
    g: Grid,
    dest: Point,
    dest_can_block: bool,
    from: Point,
    paths: Seq<Option<Vec<Point>>>,
    dist: Seq<u64>,
    visited: Seq<bool>,
    current: int,
) -> bool {
    &&& forall|i: int|
        0 <= i < paths.len() ==> match #[trigger] paths[i] {
            Some(p) => dist[i] == route_cost(p@),
            None => true,
        }
    &&& forall|i: int, c: Point|
        #![trigger visited[i], spec_exit_valid(g, dest, dest_can_block, c)]
        0 <= i < paths.len() && i != current && visited[i] && adjacent(cell_of(g, i), c)
            && spec_exit_valid(g, dest, dest_can_block, c) ==> dist[g.spec_idx(
            c.x as int,
            c.y as int,
        )] <= dist[i] + step_cost(cell_of(g, i), c)
    &&& forall|v: int, u: int|
        #![trigger visited[v], dist[u]]
        0 <= v < paths.len() && 0 <= u < paths.len() && visited[v] && !visited[u] && paths[u]
            is Some ==> dist[v] <= dist[u]
    &&& forall|i: int, r: Seq<Point>|
        #![trigger visited[i], search_path_ok(g, dest, dest_can_block, r, from, cell_of(g, i))]
        0 <= i < paths.len() && visited[i] && search_path_ok(
            g,
            dest,
            dest_can_block,
            r,
            from,
            cell_of(g, i),
        ) ==> dist[i] <= route_cost(r)
}

/// After a cell is visited and its eight offsets relaxed, the
/// exhaustiveness invariants hold again: the new cell's covered neighbours
/// plus the old cells' coverage (records only grow) rebuild the closure.
proof fn lemma_reach_after_visit(
    g: Grid,
    dest: Point,
    dest_can_block: bool,
    from: Point,
    pre_relax: Seq<Option<Vec<Point>>>,
    paths: Seq<Option<Vec<Point>>>,
    visited: Seq<bool>,
    current: int,
    cur_cell: Point,
    offsets: Seq<(i64, i64, u64)>,
)
    requires
        g.wf(),
        paths.len() == g.width * g.height,
        visited.len() == g.width * g.height,
        pre_relax.len() == g.width * g.height,
        0 <= current < paths.len(),
        cur_cell == cell_of(g, current),
        offsets_ok(offsets),
        forall|t: int|
            0 <= t < pre_relax.len() && #[trigger] pre_relax[t] is Some ==> paths[t] is Some,
        forall|i2: int, c: Point|
            #![trigger visited[i2], spec_exit_valid(g, dest, dest_can_block, c)]
            0 <= i2 < paths.len() && i2 != current && visited[i2] && adjacent(
                cell_of(g, i2),
                c,
            ) && spec_exit_valid(g, dest, dest_can_block, c) ==> pre_relax[g.spec_idx(
                c.x as int,
                c.y as int,
            )] is Some,
        forall|i2: int| 0 <= i2 < paths.len() && #[trigger] visited[i2] ==> paths[i2] is Some,
        paths[g.spec_idx(from.x as int, from.y as int)] is Some,
        forall|t: int|
            0 <= t < 8 ==> {
                let (dx, dy, _) = #[trigger] offsets[t];
                spec_exit_valid_xy(
                    g,
                    dest,
                    dest_can_block,
                    cur_cell.x + dx,
                    cur_cell.y + dy,
                ) ==> paths[g.spec_idx(cur_cell.x + dx, cur_cell.y + dy)] is Some
            },
    ensures
        reach_ok(g, dest, dest_can_block, from, paths, visited),
{
    assert forall|i2: int, c: Point|
        #![trigger visited[i2], spec_exit_valid(g, dest, dest_can_block, c)]
        0 <= i2 < paths.len() && visited[i2] && adjacent(cell_of(g, i2), c)
            && spec_exit_valid(g, dest, dest_can_block, c)
            implies paths[g.spec_idx(c.x as int, c.y as int)] is Some by {
        lemma_idx_cell(g, c);
        if i2 == current {
            let dx = c.x as int - cur_cell.x as int;
            let dy = c.y as int - cur_cell.y as int;
            lemma_exit_valid_xy(g, dest, dest_can_block, c);
            assert(spec_exit_valid_xy(g, dest, dest_can_block, c.x as int, c.y as int));
            if dx == -1 && dy == 0 {
                assert(offsets[0].0 == -1 && offsets[0].1 == 0);
                assert(cur_cell.x + offsets[0].0 == c.x as int);
                assert(cur_cell.y + offsets[0].1 == c.y as int);
                assert(spec_exit_valid_xy(
                    g,
                    dest,
                    dest_can_block,
                    cur_cell.x + offsets[0].0,
                    cur_cell.y + offsets[0].1,
                ));
                assert(paths[g.spec_idx(
                    cur_cell.x + offsets[0].0,
                    cur_cell.y + offsets[0].1,
                )] is Some);
            } else if dx == 1 && dy == 0 {
                assert(offsets[1].0 == 1 && offsets[1].1 == 0);
                assert(cur_cell.x + offsets[1].0 == c.x as int);
                assert(cur_cell.y + offsets[1].1 == c.y as int);
                assert(spec_exit_valid_xy(
                    g,
                    dest,
                    dest_can_block,
                    cur_cell.x + offsets[1].0,
                    cur_cell.y + offsets[1].1,
                ));
                assert(paths[g.spec_idx(
                    cur_cell.x + offsets[1].0,
                    cur_cell.y + offsets[1].1,
                )] is Some);
            } else if dx == 0 && dy == -1 {
                assert(offsets[2].0 == 0 && offsets[2].1 == -1);
                assert(cur_cell.x + offsets[2].0 == c.x as int);
                assert(cur_cell.y + offsets[2].1 == c.y as int);
                assert(spec_exit_valid_xy(
                    g,
                    dest,
                    dest_can_block,
                    cur_cell.x + offsets[2].0,
                    cur_cell.y + offsets[2].1,
                ));
                assert(paths[g.spec_idx(
                    cur_cell.x + offsets[2].0,
                    cur_cell.y + offsets[2].1,
                )] is Some);
            } else if dx == 0 && dy == 1 {
                assert(offsets[3].0 == 0 && offsets[3].1 == 1);
                assert(cur_cell.x + offsets[3].0 == c.x as int);
                assert(cur_cell.y + offsets[3].1 == c.y as int);
                assert(spec_exit_valid_xy(
                    g,
                    dest,
                    dest_can_block,
                    cur_cell.x + offsets[3].0,
                    cur_cell.y + offsets[3].1,
                ));
                assert(paths[g.spec_idx(
                    cur_cell.x + offsets[3].0,
                    cur_cell.y + offsets[3].1,
                )] is Some);
            } else if dx == -1 && dy == -1 {
                assert(offsets[4].0 == -1 && offsets[4].1 == -1);
                assert(cur_cell.x + offsets[4].0 == c.x as int);
                assert(cur_cell.y + offsets[4].1 == c.y as int);
                assert(spec_exit_valid_xy(
                    g,
                    dest,
                    dest_can_block,
                    cur_cell.x + offsets[4].0,
                    cur_cell.y + offsets[4].1,
                ));
                assert(paths[g.spec_idx(
                    cur_cell.x + offsets[4].0,
                    cur_cell.y + offsets[4].1,
                )] is Some);
            } else if dx == 1 && dy == -1 {
                assert(offsets[5].0 == 1 && offsets[5].1 == -1);
                assert(cur_cell.x + offsets[5].0 == c.x as int);
                assert(cur_cell.y + offsets[5].1 == c.y as int);
                assert(spec_exit_valid_xy(
                    g,
                    dest,
                    dest_can_block,
                    cur_cell.x + offsets[5].0,
                    cur_cell.y + offsets[5].1,
                ));
                assert(paths[g.spec_idx(
                    cur_cell.x + offsets[5].0,
                    cur_cell.y + offsets[5].1,
                )] is Some);
            } else if dx == -1 && dy == 1 {
                assert(offsets[6].0 == -1 && offsets[6].1 == 1);
                assert(cur_cell.x + offsets[6].0 == c.x as int);
                assert(cur_cell.y + offsets[6].1 == c.y as int);
                assert(spec_exit_valid_xy(
                    g,
                    dest,
                    dest_can_block,
                    cur_cell.x + offsets[6].0,
                    cur_cell.y + offsets[6].1,
                ));
                assert(paths[g.spec_idx(
                    cur_cell.x + offsets[6].0,
                    cur_cell.y + offsets[6].1,
                )] is Some);
            } else {
                assert(dx == 1 && dy == 1);
                assert(offsets[7].0 == 1 && offsets[7].1 == 1);
                assert(cur_cell.x + offsets[7].0 == c.x as int);
                assert(cur_cell.y + offsets[7].1 == c.y as int);
                assert(spec_exit_valid_xy(
                    g,
                    dest,
                    dest_can_block,
                    cur_cell.x + offsets[7].0,
                    cur_cell.y + offsets[7].1,
                ));
                assert(paths[g.spec_idx(
                    cur_cell.x + offsets[7].0,
                    cur_cell.y + offsets[7].1,
                )] is Some);
            }
        } else {
            assert(pre_relax[g.spec_idx(c.x as int, c.y as int)] is Some);
        }
    }
}

/// One relaxation step preserves the mid-sweep cost tables: the lowered
/// (or newly recorded) cell keeps every bound, because records only
/// improve, a visited neighbour's valid surroundings were already
/// recorded, and fresh records cost at least the visited cell's distance.
#[verifier::rlimit(100)]
#[verifier::spinoff_prover]
proof fn lemma_cost_mid_after_relax(
    g: Grid,
    dest: Point,
    dest_can_block: bool,
    from: Point,
    pre_paths: Seq<Option<Vec<Point>>>,
    pre_dist: Seq<u64>,
    post_paths: Seq<Option<Vec<Point>>>,
    post_dist: Seq<u64>,
    visited: Seq<bool>,
    current: int,
    cur_dist: u64,
    nidx: int,
    ncell: Point,
    npath: Vec<Point>,
    nd: u64,
)
    requires
        g.wf(),
        pre_paths.len() == g.width * g.height,
        pre_dist.len() == g.width * g.height,
        visited.len() == g.width * g.height,
        0 <= current < pre_paths.len(),
        visited[current],
        cur_dist == pre_dist[current],
        cost_tables_mid(g, dest, dest_can_block, from, pre_paths, pre_dist, visited, current),
        forall|i: int, c: Point|
            #![trigger visited[i], spec_exit_valid(g, dest, dest_can_block, c)]
            0 <= i < pre_paths.len() && i != current && visited[i] && adjacent(
                cell_of(g, i),
                c,
            ) && spec_exit_valid(g, dest, dest_can_block, c) ==> pre_paths[g.spec_idx(
                c.x as int,
                c.y as int,
            )] is Some,
        forall|v: int| 0 <= v < visited.len() && #[trigger] visited[v] ==> pre_dist[v] <= cur_dist,
        0 <= nidx < pre_paths.len(),
        !visited[nidx],
        g.spec_point_valid(ncell),
        nidx == g.spec_idx(ncell.x as int, ncell.y as int),
        post_paths == pre_paths.update(nidx, Some(npath)),
        post_dist == pre_dist.update(nidx, nd),
        nd == route_cost(npath@),
        nd >= cur_dist,
        pre_paths[nidx] is Some ==> nd < pre_dist[nidx],
    ensures
        cost_tables_mid(g, dest, dest_can_block, from, post_paths, post_dist, visited, current),
{
    reveal(cost_tables_mid);
    assert forall|i: int, c: Point|
        #![trigger visited[i], spec_exit_valid(g, dest, dest_can_block, c)]
        0 <= i < post_paths.len() && i != current && visited[i] && adjacent(cell_of(g, i), c)
            && spec_exit_valid(g, dest, dest_can_block, c)
            implies post_dist[g.spec_idx(c.x as int, c.y as int)] <= post_dist[i] + step_cost(
            cell_of(g, i),
            c,
        ) by {
        let target = g.spec_idx(c.x as int, c.y as int);
        assert(g.spec_point_valid(c));
        lemma_idx_cell(g, c);
        assert(pre_paths[target] is Some);
        assert(pre_dist[target] <= pre_dist[i] + step_cost(cell_of(g, i), c));
        assert(i != nidx);
        assert(post_dist[i] == pre_dist[i]);
        if target == nidx {
            assert(nd < pre_dist[target]);
        }
    }
    assert forall|v: int, u: int|
        #![trigger visited[v], post_dist[u]]
        0 <= v < post_paths.len() && 0 <= u < post_paths.len() && visited[v] && !visited[u]
            && post_paths[u] is Some implies post_dist[v] <= post_dist[u] by {
        assert(post_dist[v] == pre_dist[v]);
        if u == nidx {
            assert(post_dist[u] == nd);
            assert(pre_dist[v] <= cur_dist);
        } else {
            assert(pre_paths[u] is Some);
        }
    }
    assert forall|i: int, r: Seq<Point>|
        #![trigger visited[i], search_path_ok(g, dest, dest_can_block, r, from, cell_of(g, i))]
        0 <= i < post_paths.len() && visited[i] && search_path_ok(
            g,
            dest,
            dest_can_block,
            r,
            from,
            cell_of(g, i),
        ) implies post_dist[i] <= route_cost(r) by {
        assert(post_dist[i] == pre_dist[i]);
    }
}

/// After the eight offsets of a freshly visited cell are relaxed, the full
/// cost tables hold again: the new cell's neighbours are all bounded by
/// one step beyond it, and the other cells kept their bounds.
proof fn lemma_cost_after_visit(
    g: Grid,
    dest: Point,
    dest_can_block: bool,
    from: Point,
    paths: Seq<Option<Vec<Point>>>,
    dist: Seq<u64>,
    visited: Seq<bool>,
    current: int,
    cur_cell: Point,
    cur_dist: u64,
    offsets: Seq<(i64, i64, u64)>,
)
    requires
        g.wf(),
        paths.len() == g.width * g.height,
        dist.len() == g.width * g.height,
        visited.len() == g.width * g.height,
        0 <= current < paths.len(),
        cur_cell == cell_of(g, current),
        cur_dist == dist[current],
        offsets_ok(offsets),
        cost_tables_mid(g, dest, dest_can_block, from, paths, dist, visited, current),
        forall|t: int|
            0 <= t < 8 ==> {
                let (dx, dy, _) = #[trigger] offsets[t];
                spec_exit_valid_xy(
                    g,
                    dest,
                    dest_can_block,
                    cur_cell.x + dx,
                    cur_cell.y + dy,
                ) ==> paths[g.spec_idx(cur_cell.x + dx, cur_cell.y + dy)] is Some && dist[
                    g.spec_idx(cur_cell.x + dx, cur_cell.y + dy)
                ] <= cur_dist + step_cost(
                    cur_cell,
                    Point { x: (cur_cell.x + dx) as i32, y: (cur_cell.y + dy) as i32 },
                )
            },
    ensures
        cost_tables_ok(g, dest, dest_can_block, from, paths, dist, visited),
{
    reveal(cost_tables_mid);
    assert forall|i2: int, c: Point|
        #![trigger visited[i2], spec_exit_valid(g, dest, dest_can_block, c)]
        0 <= i2 < paths.len() && visited[i2] && adjacent(cell_of(g, i2), c)
            && spec_exit_valid(g, dest, dest_can_block, c)
            implies dist[g.spec_idx(c.x as int, c.y as int)] <= dist[i2] + step_cost(
            cell_of(g, i2),
            c,
        ) by {
        if i2 == current {
            let dx = c.x as int - cur_cell.x as int;
            let dy = c.y as int - cur_cell.y as int;
            lemma_exit_valid_xy(g, dest, dest_can_block, c);
            assert(spec_exit_valid_xy(g, dest, dest_can_block, c.x as int, c.y as int));
            if dx == -1 && dy == 0 {
                assert(offsets[0].0 == -1 && offsets[0].1 == 0);
            } else if dx == 1 && dy == 0 {
                assert(offsets[1].0 == 1 && offsets[1].1 == 0);
            } else if dx == 0 && dy == -1 {
                assert(offsets[2].0 == 0 && offsets[2].1 == -1);
            } else if dx == 0 && dy == 1 {
                assert(offsets[3].0 == 0 && offsets[3].1 == 1);
            } else if dx == -1 && dy == -1 {
                assert(offsets[4].0 == -1 && offsets[4].1 == -1);
            } else if dx == 1 && dy == -1 {
                assert(offsets[5].0 == 1 && offsets[5].1 == -1);
            } else if dx == -1 && dy == 1 {
                assert(offsets[6].0 == -1 && offsets[6].1 == 1);
            } else {
                assert(dx == 1 && dy == 1);
                assert(offsets[7].0 == 1 && offsets[7].1 == 1);
            }
            assert(Point { x: (cur_cell.x + dx) as i32, y: (cur_cell.y + dy) as i32 } == c);
        }
    }
}

/// Uniform-grid route search between two in-bounds cells, explored
/// cheapest-first with orthogonal steps at `ORTHOGONAL_COST` and diagonal
/// steps at `DIAGONAL_COST`.
///
/// A route is returned exactly when one exists: the result is `Some` if and
/// only if the two cells differ and some valid route of at least one real
/// step joins them. A returned path starts at `from`, ends at `to`, moves
/// one king-move at a time and respects the entry rule; the zero-length
///  trip, and an unreachable destination, yield `None`, which callers treat
/// as the goal being complete. A returned route's cost — the sum of its
/// step costs — is minimal over every valid route between the two cells.
#[verifier::rlimit(100)]
#[verifier::spinoff_prover]
pub fn shortest_path(g: &Grid, from: Point, to: Point, dest_can_block: bool) -> (r: Option<
    Vec<Point>,
>)
    requires
        g.wf(),
        g.spec_point_valid(from),
        g.spec_point_valid(to),
    ensures
        match r {
            Some(p) => {
                &&& valid_path(*g, p@, from, to, dest_can_block)
                &&& 2 <= p@.len() < 0x1000_0000
                &&& from != to
                &&& route_exists(*g, from, to, dest_can_block)
                &&& forall|q: Seq<Point>|
                    #[trigger] valid_path(*g, q, from, to, dest_can_block) ==> route_cost(p@)
                        <= route_cost(q)
            },
            None => from == to || !route_exists(*g, from, to, dest_can_block),
        },
{
    if from.x == to.x && from.y == to.y {
        return None;
    }
    let total: usize = g.tiles.len();
    let from_idx: usize = g.point_idx(&from);
    let to_idx: usize = g.point_idx(&to);

    let mut paths: Vec<Option<Vec<Point>>> = Vec::new();
    let mut dist: Vec<u64> = Vec::new();
    let mut visited: Vec<bool> = Vec::new();
    let mut i: usize = 0;
    while i < total
        invariant
            i <= total,
            paths.len() == i,
            dist.len() == i,
            visited.len() == i,
            forall|j: int| 0 <= j < i ==> paths[j] is None,
            forall|j: int| 0 <= j < i ==> !visited[j],
        decreases total - i,
    {
        paths.push(None);
        dist.push(0);
        visited.push(false);
        i = i + 1;
    }

    let mut start_path: Vec<Point> = Vec::new();
    start_path.push(from);
    proof {
        lemma_idx_cell(*g, from);
        lemma_idx_cell(*g, to);
        lemma_count_zero(visited@);
        assert(g.width * g.height <= 1024 * 1024) by (nonlinear_arith)
            requires
                1 <= g.width <= 1024 && 1 <= g.height <= 1024,
        ;
    }
    paths.set(from_idx, Some(start_path));
    dist.set(from_idx, 0);

    let offsets = neighbour_offsets();

    let mut rounds: usize = 0;
    while rounds < total
        invariant
            g.wf(),
            g.spec_point_valid(from),
            g.spec_point_valid(to),
            from != to,
            total == g.tiles.len(),
            total == g.width * g.height,
            to_idx < total,
            to_idx == g.spec_idx(to.x as int, to.y as int),
            from_idx < total,
            from_idx == g.spec_idx(from.x as int, from.y as int),
            total <= 1048576,
            tables_ok(*g, to, dest_can_block, from, paths@, dist@, visited@),
            reach_ok(*g, to, dest_can_block, from, paths@, visited@),
            cost_tables_ok(*g, to, dest_can_block, from, paths@, dist@, visited@),
            dist@[from_idx as int] == 0,
            !visited@[to_idx as int],
            rounds <= total,
            count_true(visited@) == rounds,
            forall|j: int|
                0 <= j < paths@.len() && #[trigger] paths@[j] is Some ==> dist@[j]
                    <= DIAGONAL_COST * (1 + rounds),
            offsets_ok(offsets@),
        decreases total - rounds,
    {
        // Select the unvisited recorded cell with the least distance.
        let mut best: Option<usize> = None;
        let mut best_dist: u64 = 0;
        let mut j: usize = 0;
        while j < total
            invariant
                total == paths.len(),
                total == dist.len(),
                total == visited.len(),
                j <= total,
                match best {
                    Some(b) => b < total && paths[b as int] is Some && !visited[b as int]
                        && best_dist == dist[b as int] && forall|t: int|
                        0 <= t < j && #[trigger] paths[t] is Some && !visited[t] ==> best_dist
                            <= dist[t],
                    None => forall|t: int|
                        0 <= t < j ==> !(#[trigger] paths[t] is Some && !visited[t]),
                },
            decreases total - j,
        {
            if !visited[j] {
                if let Some(_) = &paths[j] {
                    let dj = dist[j];
                    let better = match best {
                        None => true,
                        Some(_) => dj < best_dist,
                    };
                    if better {
                        best = Some(j);
                        best_dist = dj;
                    }
                }
            }
            j = j + 1;
        }

        let current = match best {
            None => {
                // Everything recorded has been visited, so the recorded set
                // is closed under the entry rule; a route to the (never
                // visited) destination cannot exist.
                proof {
                    assert(forall|t: int|
                        0 <= t < paths@.len() && #[trigger] paths@[t] is Some
                            ==> visited@[t]);
                    assert(!route_exists(*g, from, to, dest_can_block)) by {
                        if route_exists(*g, from, to, dest_can_block) {
                            let p = choose|p: Seq<Point>|
                                #[trigger] valid_path(*g, p, from, to, dest_can_block)
                                    && p.len() >= 2;
                            lemma_route_reached(
                                *g,
                                to,
                                dest_can_block,
                                from,
                                paths@,
                                visited@,
                                p,
                                p.len() - 1,
                            );
                            assert(paths@[to_idx as int] is Some);
                            assert(visited@[to_idx as int]);
                        }
                    }
                }
                return None;
            },
            Some(b) => b,
        };

        if current == to_idx {
            // The recorded route ends at the destination cell.
            let path = match &paths[current] {
                Some(p) => copy_path(p),
                None => {
                    return None;
                },
            };
            if path.len() >= 2 {
                proof {
                    lemma_idx_cell(*g, to);
                    assert(ORTHOGONAL_COST * (path@.len() - 1) < 0x1_0000_0000 + DIAGONAL_COST);
                    assert(path@.len() < 0x1000_0000);
                    assert(valid_path(*g, path@, from, to, dest_can_block) && path@.len() >= 2);
                    assert(route_exists(*g, from, to, dest_can_block));
                    assert(dist@[current as int] == route_cost(path@));
                    assert forall|q: Seq<Point>|
                        #[trigger] valid_path(*g, q, from, to, dest_can_block)
                            implies route_cost(path@) <= route_cost(q) by {
                        assert(cell_of(*g, current as int) == to);
                        assert(search_path_ok(
                            *g,
                            to,
                            dest_can_block,
                            q,
                            from,
                            cell_of(*g, current as int),
                        ));
                        lemma_selected_optimal_walk(
                            *g,
                            to,
                            dest_can_block,
                            from,
                            paths@,
                            dist@,
                            visited@,
                            current as int,
                            q,
                            0,
                        );
                    }
                }
                return Some(path);
            } else {
                // A one-cell route would mean the trip was zero-length,
                // which was ruled out at entry.
                proof {
                    lemma_idx_cell(*g, to);
                    assert(path@[0] == from && path@[path@.len() - 1] == to);
                    assert(false);
                }
                return None;
            }
        }

        proof {
            lemma_count_update(visited@, current as int);
            lemma_cell_of_valid(*g, current as int);
            assert forall|r2: Seq<Point>|
                search_path_ok(
                    *g,
                    to,
                    dest_can_block,
                    r2,
                    from,
                    cell_of(*g, current as int),
                ) implies dist@[current as int] <= route_cost(r2) by {
                lemma_selected_optimal_walk(
                    *g,
                    to,
                    dest_can_block,
                    from,
                    paths@,
                    dist@,
                    visited@,
                    current as int,
                    r2,
                    0,
                );
            }
        }
        visited.set(current, true);

        let cur_path = match &paths[current] {
            Some(p) => copy_path(p),
            None => {
                proof {
                    assert(false);
                }
                Vec::new()
            },
        };
        let cur_dist = dist[current];
        proof {
            vstd::arithmetic::div_mod::lemma_mod_pos_bound(current as int, g.width as int);
            vstd::arithmetic::div_mod::lemma_div_pos_is_pos(current as int, g.width as int);
            assert(current < g.width * g.height);
            assert((current as int) / (g.width as int) < g.height as int) by (nonlinear_arith)
                requires
                    g.width >= 1,
                    g.height >= 1,
                    (current as int) < (g.width as int) * (g.height as int),
            ;
        }
        let cx: i64 = (current % (g.width as usize)) as i64;
        let cy: i64 = (current / (g.width as usize)) as i64;
        let ghost cur_cell = cell_of(*g, current as int);
        let ghost pre_relax = paths@;
        proof {
            reveal(cost_tables_mid);
            assert(cost_tables_mid(
                *g,
                to,
                dest_can_block,
                from,
                paths@,
                dist@,
                visited@,
                current as int,
            ));
        }

        let mut k: usize = 0;
        while k < 8
            invariant
                g.wf(),
                g.spec_point_valid(from),
                g.spec_point_valid(to),
                from != to,
                total == g.tiles.len(),
                total == g.width * g.height,
                to_idx < total,
                to_idx == g.spec_idx(to.x as int, to.y as int),
                from_idx < total,
                from_idx == g.spec_idx(from.x as int, from.y as int),
                current < total,
                rounds < total,
                k <= 8,
                total <= 1048576,
                cur_dist >= ORTHOGONAL_COST * (cur_path@.len() - 1),
                tables_ok(*g, to, dest_can_block, from, paths@, dist@, visited@),
                !visited@[to_idx as int],
                count_true(visited@) == rounds + 1,
                visited@[current as int],
                offsets_ok(offsets@),
                cur_dist <= DIAGONAL_COST * (1 + rounds),
                cur_cell == cell_of(*g, current as int),
                cx == cur_cell.x as i64,
                cy == cur_cell.y as i64,
                search_path_ok(*g, to, dest_can_block, cur_path@, from, cur_cell),
                cost_tables_mid(
                    *g,
                    to,
                    dest_can_block,
                    from,
                    paths@,
                    dist@,
                    visited@,
                    current as int,
                ),
                dist@[from_idx as int] == 0,
                cur_dist == dist@[current as int],
                cur_dist == route_cost(cur_path@),
                forall|v: int|
                    0 <= v < total && #[trigger] visited@[v] ==> dist@[v] <= cur_dist,
                pre_relax.len() == total,
                forall|t: int|
                    0 <= t < total && #[trigger] pre_relax[t] is Some ==> paths@[t] is Some,
                forall|i2: int, c: Point|
                    #![trigger visited@[i2], spec_exit_valid(*g, to, dest_can_block, c)]
                    0 <= i2 < total && i2 != current && visited@[i2] && adjacent(
                        cell_of(*g, i2),
                        c,
                    ) && spec_exit_valid(*g, to, dest_can_block, c) ==> pre_relax[g.spec_idx(
                        c.x as int,
                        c.y as int,
                    )] is Some,
                forall|i2: int| 0 <= i2 < total && #[trigger] visited@[i2] ==> paths@[i2] is Some,
                paths@[from_idx as int] is Some,
                forall|t: int|
                    0 <= t < k ==> {
                        let (dx, dy, _) = #[trigger] offsets@[t];
                        spec_exit_valid_xy(
                            *g,
                            to,
                            dest_can_block,
                            cur_cell.x + dx,
                            cur_cell.y + dy,
                        ) ==> paths@[g.spec_idx(cur_cell.x + dx, cur_cell.y + dy)] is Some
                            && dist@[g.spec_idx(cur_cell.x + dx, cur_cell.y + dy)] <= cur_dist
                            + step_cost(
                            cur_cell,
                            Point {
                                x: (cur_cell.x + dx) as i32,
                                y: (cur_cell.y + dy) as i32,
                            },
                        )
                    },
                forall|t: int|
                    0 <= t < paths@.len() && #[trigger] paths@[t] is Some ==> dist@[t]
                        <= DIAGONAL_COST * (2 + rounds),
            decreases 8 - k,
        {
            let ghost paths_at_entry = paths@;
            let ghost dist_at_entry = dist@;
            let (dx, dy, cost) = offsets[k];
            let nx = cx + dx;
            let ny = cy + dy;
            match exit_valid(g, &to, dest_can_block, nx, ny) {
                None => {
                    proof {
                        assert(!spec_exit_valid_xy(
                            *g,
                            to,
                            dest_can_block,
                            nx as int,
                            ny as int,
                        ));
                        assert(cur_cell.x + (offsets@[k as int].0 as int) == nx as int);
                        assert(cur_cell.y + (offsets@[k as int].1 as int) == ny as int);
                    }
                },
                Some(ncell) => {
                let nidx = g.point_idx(&ncell);
                proof {
                    lemma_idx_cell(*g, ncell);
                }
                proof {
                    assert(cur_dist <= DIAGONAL_COST * (1 + rounds));
                    assert(DIAGONAL_COST * (1 + rounds) <= DIAGONAL_COST * (1 + 1048576));
                }
                let nd = cur_dist + cost;
                let update = if visited[nidx] {
                    false
                } else {
                    match &paths[nidx] {
                        None => true,
                        Some(_) => nd < dist[nidx],
                    }
                };
                if update {
                    let mut npath = cur_path.clone();
                    proof {
                        assert(npath@ == cur_path@);
                    }
                    npath.push(ncell);
                    proof {
                        assert(adjacent(cur_cell, ncell));
                        assert(npath@ == cur_path@.push(ncell));
                        assert(search_path_ok(
                            *g,
                            to,
                            dest_can_block,
                            npath@,
                            from,
                            ncell,
                        )) by {
                            assert(forall|t: int|
                                1 <= t < npath@.len() - 1 ==> adjacent(
                                    npath@[t - 1],
                                    #[trigger] npath@[t],
                                ));
                            assert(forall|t: int|
                                1 <= t < npath@.len() - 1 ==> spec_exit_valid(
                                    *g,
                                    to,
                                    dest_can_block,
                                    #[trigger] npath@[t],
                                ));
                        }
                    }
                    proof {
                        assert(npath@.drop_last() =~= cur_path@);
                        assert(npath@[npath@.len() - 2] == cur_cell);
                        assert(route_cost(npath@) == route_cost(cur_path@) + step_cost(
                            cur_cell,
                            ncell,
                        ));
                    }
                    let ghost before_paths = paths@;
                    let ghost before_dist = dist@;
                    paths.set(nidx, Some(npath));
                    dist.set(nidx, nd);
                    proof {
                        assert forall|i2: int, c2: Point|
                            #![trigger visited@[i2], spec_exit_valid(*g, to, dest_can_block, c2)]
                            0 <= i2 < total && i2 != current && visited@[i2] && adjacent(
                                cell_of(*g, i2),
                                c2,
                            ) && spec_exit_valid(*g, to, dest_can_block, c2)
                                implies before_paths[g.spec_idx(
                                c2.x as int,
                                c2.y as int,
                            )] is Some by {
                            assert(g.spec_point_valid(c2));
                            lemma_idx_cell(*g, c2);
                            assert(pre_relax[g.spec_idx(c2.x as int, c2.y as int)] is Some);
                        }
                        lemma_cost_mid_after_relax(
                            *g,
                            to,
                            dest_can_block,
                            from,
                            before_paths,
                            before_dist,
                            paths@,
                            dist@,
                            visited@,
                            current as int,
                            cur_dist,
                            nidx as int,
                            ncell,
                            npath,
                            nd,
                        );
                    }
                }
                proof {
                    lemma_exit_valid_xy(*g, to, dest_can_block, ncell);
                    assert(paths@[nidx as int] is Some);
                    assert(nidx as int == g.spec_idx(cur_cell.x + dx, cur_cell.y + dy));
                    assert(cost == (if dx != 0 && dy != 0 {
                        DIAGONAL_COST
                    } else {
                        ORTHOGONAL_COST
                    })) by {
                        if k == 0 {
                        } else if k == 1 {
                        } else if k == 2 {
                        } else if k == 3 {
                        } else if k == 4 {
                        } else if k == 5 {
                        } else if k == 6 {
                        } else {
                            assert(k == 7);
                        }
                    }
                    assert(step_cost(cur_cell, ncell) == cost);
                    assert(dist@[nidx as int] <= cur_dist + cost);
                }
                },
            }
            proof {
                assert forall|t: int| 0 <= t < k + 1 implies {
                    let (dx2, dy2, _) = #[trigger] offsets@[t];
                    spec_exit_valid_xy(
                        *g,
                        to,
                        dest_can_block,
                        cur_cell.x + dx2,
                        cur_cell.y + dy2,
                    ) ==> paths@[g.spec_idx(cur_cell.x + dx2, cur_cell.y + dy2)] is Some
                        && dist@[g.spec_idx(cur_cell.x + dx2, cur_cell.y + dy2)] <= cur_dist
                        + step_cost(
                        cur_cell,
                        Point { x: (cur_cell.x + dx2) as i32, y: (cur_cell.y + dy2) as i32 },
                    )
                } by {
                    let (dx2, dy2, _) = offsets@[t];
                    if spec_exit_valid_xy(
                        *g,
                        to,
                        dest_can_block,
                        cur_cell.x + dx2,
                        cur_cell.y + dy2,
                    ) {
                        let cc = Point {
                            x: (cur_cell.x + dx2) as i32,
                            y: (cur_cell.y + dy2) as i32,
                        };
                        lemma_idx_cell(*g, cc);
                        assert(cc.x as int == cur_cell.x + dx2 && cc.y as int == cur_cell.y
                            + dy2);
                        if t < k {
                            assert(paths_at_entry[g.spec_idx(
                                cur_cell.x + dx2,
                                cur_cell.y + dy2,
                            )] is Some);
                            assert(dist_at_entry[g.spec_idx(
                                cur_cell.x + dx2,
                                cur_cell.y + dy2,
                            )] <= cur_dist + step_cost(cur_cell, cc));
                            assert(dist@[g.spec_idx(cur_cell.x + dx2, cur_cell.y + dy2)]
                                <= dist_at_entry[g.spec_idx(
                                cur_cell.x + dx2,
                                cur_cell.y + dy2,
                            )]);
                        }
                    }
                }
            }
            k = k + 1;
        }

        proof {
            lemma_reach_after_visit(
                *g,
                to,
                dest_can_block,
                from,
                pre_relax,
                paths@,
                visited@,
                current as int,
                cur_cell,
                offsets@,
            );
            lemma_cost_after_visit(
                *g,
                to,
                dest_can_block,
                from,
                paths@,
                dist@,
                visited@,
                current as int,
                cur_cell,
                cur_dist,
                offsets@,
            );
        }

        rounds = rounds + 1;
    }

    // Every cell has been visited, which the never-visited destination
    // contradicts: the loop always returns from within.
    proof {
        lemma_count_full(visited@);
        assert(visited@[to_idx as int]);
        assert(false);
    }
    None
}

/// The single next cell on a fresh route from `start_pos` toward the
/// adversary at `target_pos`, recomputed every turn rather than cached.
/// A step is produced exactly when the two cells differ and a route
/// exists; it is the second cell of a minimal-cost route, one king-move
/// from the actor.
pub fn next_step_toward(g: &Grid, start_pos: Point, target_pos: Point) -> (r: Option<Point>)
    requires
        g.wf(),
        g.spec_point_valid(start_pos),
        g.spec_point_valid(target_pos),
    ensures
        match r {
            Some(c) => {
                &&& adjacent(start_pos, c)
                &&& spec_exit_valid(*g, target_pos, false, c)
                &&& exists|p: Seq<Point>|
                    #[trigger] valid_path(*g, p, start_pos, target_pos, false) && p.len() >= 2
                        && p[1] == c && forall|q: Seq<Point>|
                        #[trigger] valid_path(*g, q, start_pos, target_pos, false)
                            ==> route_cost(p) <= route_cost(q)
            },
            None => start_pos == target_pos || !route_exists(*g, start_pos, target_pos, false),
        },
{
    match shortest_path(g, start_pos, target_pos, false) {
        Some(path) => {
            let c = path[1];
            proof {
                assert(valid_path(*g, path@, start_pos, target_pos, false) && path@.len() >= 2
                    && path@[1] == c && forall|q: Seq<Point>|
                    #[trigger] valid_path(*g, q, start_pos, target_pos, false) ==> route_cost(
                        path@,
                    ) <= route_cost(q));
            }
            Some(c)
        },
        None => None,
    }
}

/// How many random destinations a flee plan draws.
pub const FLEE_TRIES: u32 = 50;

/// The destination of the `k`-th flee draw: a column and a row drawn in
/// turn from the random stream.
pub open spec fn spec_flee_dest(g: Grid, s: u64, k: nat) -> Point {
    let s1 = spec_advance_n(s, 2 * k);
    Point {
        x: spec_range(s1, g.width as u64) as i32,
        y: spec_range(spec_advance(s1), g.height as u64) as i32,
    }
}

/// Whether a drawn cell can end a flight from `start`: unblocked, not the
/// cell the actor already stands on, and reachable.
pub open spec fn spec_flee_candidate_ok(g: Grid, start: Point, d: Point) -> bool {
    &&& !g.spec_blocked_at(d)
    &&& d != start
    &&& route_exists(g, start, d, false)
}

/// Plans a flight: draws `FLEE_TRIES` uniformly random grid cells and takes
/// the first that is unblocked and reachable. The whole budget of draws is
/// consumed either way, so the stream the planner leaves behind is a
/// function of the one it was given; the returned route (if any) ends on
/// the first qualifying drawn cell, and the plan fails exactly when no
/// drawn cell qualifies.
pub fn plan_flee(g: &Grid, start_pos: Point, rng: &mut Rng) -> (r: Option<Vec<Point>>)
    requires
        g.wf(),
        g.spec_point_valid(start_pos),
    ensures
        final(rng).state == spec_advance_n(old(rng).state, 2 * FLEE_TRIES as nat),
        match r {
            Some(p) => {
                &&& 2 <= p@.len() < 0x1000_0000
                &&& valid_path(*g, p@, start_pos, p@[p@.len() - 1], false)
                &&& !g.spec_blocked_at(p@[p@.len() - 1])
                &&& exists|k: nat|
                    k < FLEE_TRIES && #[trigger] spec_flee_dest(*g, old(rng).state, k)
                        == p@[p@.len() - 1] && spec_flee_candidate_ok(
                        *g,
                        start_pos,
                        spec_flee_dest(*g, old(rng).state, k),
                    ) && forall|j: nat|
                        j < k ==> !spec_flee_candidate_ok(
                            *g,
                            start_pos,
                            #[trigger] spec_flee_dest(*g, old(rng).state, j),
                        )
            },
            None => forall|k: nat|
                k < FLEE_TRIES ==> !spec_flee_candidate_ok(
                    *g,
                    start_pos,
                    #[trigger] spec_flee_dest(*g, old(rng).state, k),
                ),
        },
{
    let ghost s0 = rng.state;
    let mut found: Option<Vec<Point>> = None;
    let ghost mut found_at: nat = 0;
    let mut tries: u32 = 0;
    while tries < FLEE_TRIES
        invariant
            g.wf(),
            g.spec_point_valid(start_pos),
            tries <= FLEE_TRIES,
            rng.state == spec_advance_n(s0, 2 * tries as nat),
            match found {
                Some(p) => {
                    &&& 2 <= p@.len() < 0x1000_0000
                    &&& valid_path(*g, p@, start_pos, p@[p@.len() - 1], false)
                    &&& !g.spec_blocked_at(p@[p@.len() - 1])
                    &&& found_at < tries
                    &&& spec_flee_dest(*g, s0, found_at) == p@[p@.len() - 1]
                    &&& spec_flee_candidate_ok(*g, start_pos, spec_flee_dest(*g, s0, found_at))
                    &&& forall|j: nat|
                        j < found_at ==> !spec_flee_candidate_ok(
                            *g,
                            start_pos,
                            #[trigger] spec_flee_dest(*g, s0, j),
                        )
                },
                None => forall|k: nat|
                    k < tries ==> !spec_flee_candidate_ok(
                        *g,
                        start_pos,
                        #[trigger] spec_flee_dest(*g, s0, k),
                    ),
            },
        decreases FLEE_TRIES - tries,
    {
        proof {
            assert(spec_advance_n(s0, 2 * tries as nat + 1) == spec_advance(
                spec_advance_n(s0, 2 * tries as nat),
            ));
            assert(spec_advance_n(s0, 2 * (tries + 1) as nat) == spec_advance(
                spec_advance_n(s0, 2 * tries as nat + 1),
            ));
        }
        let dx = rng.range(g.width as u64);
        let dy = rng.range(g.height as u64);
        let dest = Point { x: dx as i32, y: dy as i32 };
        proof {
            assert(dest == spec_flee_dest(*g, s0, tries as nat));
        }
        let still_looking = match &found {
            Some(_) => false,
            None => true,
        };
        if still_looking {
            if !g.blocked_at(&dest) {
                match shortest_path(g, start_pos, dest, false) {
                    Some(path) => {
                        proof {
                            found_at = tries as nat;
                        }
                        found = Some(path);
                    },
                    None => {},
                }
            }
        }
        tries = tries + 1;
    }
    found
}

} // verus!
