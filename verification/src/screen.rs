//! Finding a switched-off laptop screen in a video frame, for compositing the fold onto it:
//! the frame is reduced to a grid of darkness levels, and the screen is the dark connected
//! region that best fits a screen. Regions are seeded by truly black cells and grown into
//! connected cells that are merely darker than the room, so reflections on a glossy panel
//! stay part of the screen while the lighter deck around it does not.
use vstd::prelude::*;

verus! {

// ------------------------------------------------------------------ the grid

/// `j` is a 4-neighbour of `i` in a grid of `n` cells, `w` to a row, numbered row by row.
pub open spec fn grid_adj(w: int, n: int, i: int, j: int) -> bool {
    &&& 0 <= i < n
    &&& 0 <= j < n
    &&& ((i % w != 0 && j == i - 1) || (i % w != w - 1 && j == i + 1) || j == i - w || j == i
        + w)
}

/// The cells of `c` that are set.
pub open spec fn marked(c: Seq<bool>) -> Set<int> {
    Set::new(|i: int| 0 <= i < c.len() && c[i])
}

/// `p` is a walk a flood can take: each step goes to a 4-neighbour darker than `grow` that
/// `taken` does not hold.
pub open spec fn is_flood_walk(lv: Seq<u8>, w: int, grow: u8, taken: Set<int>, p: Seq<int>) -> bool {
    &&& p.len() >= 1
    &&& forall|k: int|
        #![trigger p[k]]
        1 <= k < p.len() ==> grid_adj(w, lv.len() as int, p[k - 1], p[k]) && lv[p[k]] < grow
            && !taken.contains(p[k])
}

/// `p` is a flood walk from `s` to `t`.
pub open spec fn leads(lv: Seq<u8>, w: int, grow: u8, taken: Set<int>, s: int, t: int, p: Seq<int>) -> bool {
    &&& is_flood_walk(lv, w, grow, taken, p)
    &&& p[0] == s
    &&& p.last() == t
}

/// The cells a flood from `s` reaches when the cells of `taken` belong to earlier regions.
pub open spec fn reached(lv: Seq<u8>, w: int, grow: u8, taken: Set<int>, s: int) -> Set<int> {
    Set::new(|t: int| exists|p: Seq<int>| #[trigger] leads(lv, w, grow, taken, s, t, p))
}

/// The grid position (column, row) of cell `i`.
pub open spec fn coords(w: int, i: int) -> (u32, u32) {
    ((i % w) as u32, (i / w) as u32)
}

/// The cell at grid position `p`.
pub open spec fn cell_of(w: int, p: (u32, u32)) -> int {
    p.1 * w + p.0
}

/// The grid positions of the cells `o`.
pub open spec fn positions(w: int, o: Seq<int>) -> Seq<(u32, u32)> {
    o.map_values(|i: int| coords(w, i))
}

/// The cells at the grid positions `px`.
pub open spec fn cells_of(w: int, px: Seq<(u32, u32)>) -> Seq<int> {
    px.map_values(|p: (u32, u32)| cell_of(w, p))
}

/// `px` lists the cells of `c`, each once, as grid positions.
pub open spec fn lists(px: Seq<(u32, u32)>, w: int, c: Set<int>) -> bool {
    &&& forall|k: int| 0 <= k < px.len() ==> (#[trigger] px[k]).0 < w
    &&& cells_of(w, px).no_duplicates()
    &&& cells_of(w, px).to_set() == c
}

/// Seed cells (darker than `threshold`) among `o`.
pub open spec fn seq_seeds(lv: Seq<u8>, threshold: u8, o: Seq<int>) -> int
    decreases o.len(),
{
    if o.len() == 0 {
        0
    } else {
        seq_seeds(lv, threshold, o.drop_last()) + if lv[o.last()] < threshold {
            1int
        } else {
            0
        }
    }
}

/// Sum of the columns of the cells of `o`.
pub open spec fn seq_sum_x(w: int, o: Seq<int>) -> int
    decreases o.len(),
{
    if o.len() == 0 {
        0
    } else {
        seq_sum_x(w, o.drop_last()) + o.last() % w
    }
}

/// Sum of the rows of the cells of `o`.
pub open spec fn seq_sum_y(w: int, o: Seq<int>) -> int
    decreases o.len(),
{
    if o.len() == 0 {
        0
    } else {
        seq_sum_y(w, o.drop_last()) + o.last() / w
    }
}

// ------------------------------------------------------------------ flood lemmas

/// No flood step leads out of `c`.
pub open spec fn flood_closed(lv: Seq<u8>, w: int, grow: u8, taken: Set<int>, c: Set<int>) -> bool {
    forall|i: int, j: int|
        #![trigger grid_adj(w, lv.len() as int, i, j), c.contains(j)]
        c.contains(i) && grid_adj(w, lv.len() as int, i, j) && lv[j] < grow && !taken.contains(j)
            ==> c.contains(j)
}

proof fn lemma_reach_start(lv: Seq<u8>, w: int, grow: u8, taken: Set<int>, s: int)
    ensures
        reached(lv, w, grow, taken, s).contains(s),
{
    let p = seq![s];
    assert(leads(lv, w, grow, taken, s, s, p));
}

proof fn lemma_reach_step(lv: Seq<u8>, w: int, grow: u8, taken: Set<int>, s: int, i: int, j: int)
    requires
        reached(lv, w, grow, taken, s).contains(i),
        grid_adj(w, lv.len() as int, i, j),
        lv[j] < grow,
        !taken.contains(j),
    ensures
        reached(lv, w, grow, taken, s).contains(j),
{
    let p = choose|p: Seq<int>| #[trigger] leads(lv, w, grow, taken, s, i, p);
    let q = p.push(j);
    assert forall|k: int| #![trigger q[k]] 1 <= k < q.len() implies grid_adj(
        w,
        lv.len() as int,
        q[k - 1],
        q[k],
    ) && lv[q[k]] < grow && !taken.contains(q[k]) by {
        if k < p.len() {
            assert(q[k] == p[k] && q[k - 1] == p[k - 1]);
        } else {
            assert(q[k - 1] == p.last());
        }
    }
    assert(leads(lv, w, grow, taken, s, j, q));
}

/// A set that holds `s` and is closed under flood steps holds everything the flood reaches.
proof fn lemma_closed_holds_reached(lv: Seq<u8>, w: int, grow: u8, taken: Set<int>, s: int, c: Set<int>)
    requires
        c.contains(s),
        flood_closed(lv, w, grow, taken, c),
    ensures
        reached(lv, w, grow, taken, s).subset_of(c),
{
    assert forall|t: int| reached(lv, w, grow, taken, s).contains(t) implies c.contains(t) by {
        let p = choose|p: Seq<int>| #[trigger] leads(lv, w, grow, taken, s, t, p);
        lemma_walk_stays(lv, w, grow, taken, c, p, p.len() - 1);
    }
}

proof fn lemma_walk_stays(lv: Seq<u8>, w: int, grow: u8, taken: Set<int>, c: Set<int>, p: Seq<int>, k: int)
    requires
        is_flood_walk(lv, w, grow, taken, p),
        c.contains(p[0]),
        0 <= k < p.len(),
        flood_closed(lv, w, grow, taken, c),
    ensures
        c.contains(p[k]),
    decreases k,
{
    if k > 0 {
        lemma_walk_stays(lv, w, grow, taken, c, p, k - 1);
        assert(grid_adj(w, lv.len() as int, p[k - 1], p[k]));
    }
}

// ------------------------------------------------------------------ visiting order

/// Claiming cell `j` from claims `c` with queue `st`: a free cell darker than `grow` is
/// claimed and queued; any other cell is left alone.
pub open spec fn claim(lv: Seq<u8>, grow: u8, c: Seq<bool>, st: Seq<usize>, j: int) -> (Seq<bool>, Seq<usize>) {
    if lv[j] < grow && !c[j] {
        (c.update(j, true), st.push(j as usize))
    } else {
        (c, st)
    }
}

/// Claiming the neighbours of cell `i` inside the grid, in the order left, right, up, down.
pub open spec fn expand(lv: Seq<u8>, w: int, grow: u8, c: Seq<bool>, st: Seq<usize>, i: int) -> (
    Seq<bool>,
    Seq<usize>,
) {
    let n = lv.len() as int;
    let a = if i % w != 0 {
        claim(lv, grow, c, st, i - 1)
    } else {
        (c, st)
    };
    let b = if i % w != w - 1 && i + 1 < n {
        claim(lv, grow, a.0, a.1, i + 1)
    } else {
        a
    };
    let d = if i >= w {
        claim(lv, grow, b.0, b.1, i - w)
    } else {
        b
    };
    if i < n - w {
        claim(lv, grow, d.0, d.1, i + w)
    } else {
        d
    }
}

/// The cells a depth-first flood visits, in order, from claims `c` and queue `st`: it takes
/// the most recently queued cell and claims its neighbours, at most `fuel` times.
pub open spec fn dfs(lv: Seq<u8>, w: int, grow: u8, c: Seq<bool>, st: Seq<usize>, fuel: nat) -> Seq<int>
    decreases fuel,
{
    if fuel == 0 || st.len() == 0 {
        Seq::empty()
    } else {
        let i = st.last() as int;
        let next = expand(lv, w, grow, c, st.drop_last(), i);
        seq![i] + dfs(lv, w, grow, next.0, next.1, (fuel - 1) as nat)
    }
}

/// The order in which the flood from seed `s` visits the cells of its region, when the cells
/// set in `c` are already claimed.
pub open spec fn flood_order(lv: Seq<u8>, w: int, grow: u8, c: Seq<bool>, s: int) -> Seq<int> {
    dfs(lv, w, grow, c.update(s, true), seq![s as usize], lv.len())
}

// ------------------------------------------------------------------ one region

/// One region and its tallies, with the order its cells were visited in.
struct Region {
    pixels: Vec<(u32, u32)>,
    seeds: u64,
    sum_x: u128,
    sum_y: u128,
    order: Ghost<Seq<int>>,
}

/// Since the neighbours of `i` began to be visited (claims `c0`, queue `s0`), the claims grew
/// to `c` and the queue to `s`: the queue gained, in order and each once, exactly the newly
/// claimed cells, all of them neighbours of `i` darker than `grow`.
spec fn grew(lv: Seq<u8>, w: int, grow: u8, i: int, c0: Seq<bool>, s0: Seq<usize>, c: Seq<bool>, s: Seq<usize>) -> bool {
    let n = lv.len() as int;
    let added = s.subrange(s0.len() as int, s.len() as int);
    &&& c0.len() == n
    &&& c.len() == n
    &&& forall|q: int| 0 <= q < n && c0[q] ==> #[trigger] c[q]
    &&& s.len() >= s0.len()
    &&& s.subrange(0, s0.len() as int) == s0
    &&& added.no_duplicates()
    &&& forall|k: int|
        0 <= k < added.len() ==> {
            let q = #[trigger] added[k] as int;
            &&& q < n
            &&& !c0[q]
            &&& c[q]
            &&& grid_adj(w, n, i, q)
            &&& lv[q] < grow
        }
    &&& forall|q: int| 0 <= q < n && #[trigger] c[q] && !c0[q] ==> added.contains(q as usize)
}

/// Claims `j`, a neighbour of `i`, and queues it when it is darker than `grow` and still free.
fn visit(
    level: &[u8],
    w: usize,
    grow: u8,
    claimed: &mut Vec<bool>,
    stack: &mut Vec<usize>,
    i: usize,
    j: usize,
    Ghost(c0): Ghost<Seq<bool>>,
    Ghost(s0): Ghost<Seq<usize>>,
)
    requires
        grid_adj(w as int, level@.len() as int, i as int, j as int),
        grew(level@, w as int, grow, i as int, c0, s0, old(claimed)@, old(stack)@),
    ensures
        grew(level@, w as int, grow, i as int, c0, s0, final(claimed)@, final(stack)@),
        forall|q: int| 0 <= q < level@.len() && old(claimed)@[q] ==> #[trigger] final(claimed)@[q],
        level@[j as int] < grow ==> final(claimed)@[j as int],
        (final(claimed)@, final(stack)@) == claim(level@, grow, old(claimed)@, old(stack)@, j as int),
{
    let ghost n = level@.len() as int;
    if level[j] < grow && !claimed[j] {
        let ghost c1 = claimed@;
        let ghost st1 = stack@;
        claimed.set(j, true);
        stack.push(j);
        proof {
            let added1 = st1.subrange(s0.len() as int, st1.len() as int);
            let added = stack@.subrange(s0.len() as int, stack@.len() as int);
            assert(added =~= added1.push(j));
            assert(stack@.subrange(0, s0.len() as int) =~= st1.subrange(0, s0.len() as int));
            assert forall|q: int| 0 <= q < n && #[trigger] claimed@[q] && !c0[q] implies added.contains(
                q as usize,
            ) by {
                if q == j as int {
                    assert(added[added.len() - 1] == j);
                } else {
                    assert(c1[q]);
                    let k = choose|k: int| 0 <= k < added1.len() && added1[k] == q as usize;
                    assert(added[k] == q as usize);
                }
            }
            assert forall|a: int, b: int| 0 <= a < added.len() && 0 <= b < added.len() && a != b implies added[a]
                != added[b] by {
                if a < added1.len() && b < added1.len() {
                    assert(added[a] == added1[a] && added[b] == added1[b]);
                } else if a < added1.len() {
                    assert(added[a] == added1[a]);
                    assert(c1[added1[a] as int]);
                } else if b < added1.len() {
                    assert(added[b] == added1[b]);
                    assert(c1[added1[b] as int]);
                }
            }
            assert forall|k: int| 0 <= k < added.len() implies {
                let q = #[trigger] added[k] as int;
                &&& q < n
                &&& !c0[q]
                &&& claimed@[q]
                &&& grid_adj(w as int, n, i as int, q)
                &&& level@[q] < grow
            } by {
                if k < added1.len() {
                    assert(added[k] == added1[k]);
                }
            }
        }
    }
}

/// Visits the neighbours of cell `i` inside the grid, in the order left, right, up, down:
/// the cells it claims are exactly the free neighbours darker than `grow`, and they are
/// queued in the order claimed.
fn visit_neighbours(level: &[u8], w: usize, grow: u8, claimed: &mut Vec<bool>, stack: &mut Vec<usize>, i: usize)
    requires
        w >= 1,
        w <= level@.len(),
        i < level@.len(),
        old(claimed)@.len() == level@.len(),
    ensures
        grew(level@, w as int, grow, i as int, old(claimed)@, old(stack)@, final(claimed)@, final(stack)@),
        forall|j: int|
            #[trigger] grid_adj(w as int, level@.len() as int, i as int, j) && level@[j] < grow
                ==> final(claimed)@[j],
        (final(claimed)@, final(stack)@) == expand(level@, w as int, grow, old(claimed)@, old(stack)@, i as int),
{
    let n = level.len();
    let ghost c0 = claimed@;
    let ghost s0 = stack@;
    proof {
        assert(s0.subrange(0, s0.len() as int) =~= s0);
        assert(s0.subrange(s0.len() as int, s0.len() as int) =~= Seq::<usize>::empty());
    }
    let x = i % w;
    assert(i == 0 ==> x == 0) by (nonlinear_arith)
        requires
            x == i % w,
            w >= 1,
    ;
    if x != 0 {
        visit(level, w, grow, claimed, stack, i, i - 1, Ghost(c0), Ghost(s0));
    }
    if x != w - 1 && i + 1 < n {
        visit(level, w, grow, claimed, stack, i, i + 1, Ghost(c0), Ghost(s0));
    }
    if i >= w {
        visit(level, w, grow, claimed, stack, i, i - w, Ghost(c0), Ghost(s0));
    }
    if i < n - w {
        visit(level, w, grow, claimed, stack, i, i + w, Ghost(c0), Ghost(s0));
    }
}

/// A sequence of distinct cells of a grid of `n` cells has at most `n` elements.
proof fn lemma_distinct_cells(o: Seq<int>, n: int)
    requires
        n >= 0,
        o.no_duplicates(),
        forall|k: int| 0 <= k < o.len() ==> 0 <= #[trigger] o[k] < n,
    ensures
        o.len() <= n,
{
    o.unique_seq_to_set();
    vstd::set_lib::lemma_int_range(0, n);
    assert(o.to_set().subset_of(vstd::set_lib::set_int_range(0, n)));
    vstd::set_lib::lemma_len_subset(o.to_set(), vstd::set_lib::set_int_range(0, n));
}

/// Floods the region of seed `s` through the free cells of `claimed`, claiming them; the
/// cells are visited depth first (a stack), each cell's neighbours tried left, right, up, down.
fn flood(level: &[u8], w: usize, grow: u8, threshold: u8, claimed: &mut Vec<bool>, s: usize) -> (r: Region)
    requires
        w >= 1,
        w <= level@.len(),
        old(claimed)@.len() == level@.len(),
        s < level@.len(),
        !old(claimed)@[s as int],
        level@.len() <= u32::MAX,
    ensures
        final(claimed)@.len() == level@.len(),
        marked(final(claimed)@) == marked(old(claimed)@).union(
            reached(level@, w as int, grow, marked(old(claimed)@), s as int),
        ),
        r.order@.no_duplicates(),
        r.order@.to_set() == reached(level@, w as int, grow, marked(old(claimed)@), s as int),
        forall|k: int| 0 <= k < r.order@.len() ==> 0 <= #[trigger] r.order@[k] < level@.len(),
        r.pixels@ == positions(w as int, r.order@),
        r.seeds == seq_seeds(level@, threshold, r.order@),
        r.sum_x == seq_sum_x(w as int, r.order@),
        r.sum_y == seq_sum_y(w as int, r.order@),
        r.order@ == flood_order(level@, w as int, grow, old(claimed)@, s as int),
        r.seeds <= r.order@.len(),
        r.sum_x <= r.order@.len() * 0x1_0000_0000,
        r.sum_y <= r.order@.len() * 0x1_0000_0000,
        r.pixels@.len() >= 1,
{
    let ghost lv = level@;
    let ghost old_c = claimed@;
    let ghost taken = marked(old_c);
    let ghost reach = reached(lv, w as int, grow, taken, s as int);
    let n = level.len();
    claimed.set(s, true);
    let mut stack: Vec<usize> = Vec::new();
    stack.push(s);
    let mut pixels: Vec<(u32, u32)> = Vec::new();
    let mut seeds: u64 = 0;
    let mut sx: u128 = 0;
    let mut sy: u128 = 0;
    let ghost mut order: Seq<int> = Seq::empty();
    proof {
        lemma_reach_start(lv, w as int, grow, taken, s as int);
        assert forall|i: int| 0 <= i < n && #[trigger] claimed@[i] && !old_c[i] implies reach.contains(i)
            && stack@.contains(i as usize) by {
            assert(i == s as int);
            assert(stack@[0] == s);
        }
    }
    while stack.len() > 0
        invariant
            n == lv.len(),
            lv == level@,
            w >= 1,
            w <= n,
            n <= u32::MAX,
            s < n,
            old_c.len() == n,
            taken == marked(old_c),
            reach == reached(lv, w as int, grow, taken, s as int),
            !old_c[s as int],
            claimed@.len() == n,
            claimed@[s as int],
            forall|i: int| 0 <= i < n && old_c[i] ==> #[trigger] claimed@[i],
            forall|i: int|
                0 <= i < n && #[trigger] claimed@[i] && !old_c[i] ==> order.contains(i)
                    || stack@.contains(i as usize),
            forall|k: int|
                0 <= k < order.len() ==> 0 <= #[trigger] order[k] < n && claimed@[order[k]]
                    && !old_c[order[k]],
            forall|k: int|
                0 <= k < stack@.len() ==> #[trigger] stack@[k] < n && claimed@[stack@[k] as int]
                    && !old_c[stack@[k] as int],
            order.no_duplicates(),
            stack@.no_duplicates(),
            forall|a: int, b: int|
                0 <= a < order.len() && 0 <= b < stack@.len() ==> #[trigger] order[a]
                    != #[trigger] stack@[b] as int,
            forall|i: int| 0 <= i < n && #[trigger] claimed@[i] && !old_c[i] ==> reach.contains(i),
            forall|k: int, j: int|
                0 <= k < order.len() && #[trigger] grid_adj(w as int, n as int, order[k], j)
                    && lv[j] < grow ==> claimed@[j],
            pixels@ == positions(w as int, order),
            seeds == seq_seeds(lv, threshold, order),
            sx == seq_sum_x(w as int, order),
            sy == seq_sum_y(w as int, order),
            seeds <= order.len(),
            sx <= order.len() * 0x1_0000_0000,
            sy <= order.len() * 0x1_0000_0000,
            order.len() <= n,
            order.len() == 0 ==> stack@.len() >= 1,
            order + dfs(lv, w as int, grow, claimed@, stack@, (n - order.len()) as nat) == flood_order(
                lv,
                w as int,
                grow,
                old_c,
                s as int,
            ),
        decreases n - order.len(), stack@.len(),
    {
        let ghost st0 = stack@;
        let ghost fuel = (n - order.len()) as nat;
        proof {
            let top = st0[st0.len() - 1] as int;
            let more = order.push(top);
            assert forall|a: int, b: int| 0 <= a < more.len() && 0 <= b < more.len() && a != b implies more[a]
                != more[b] by {
                if a < order.len() && b < order.len() {
                    assert(more[a] == order[a] && more[b] == order[b]);
                } else if a < order.len() {
                    assert(more[a] == order[a]);
                    assert(order[a] != st0[st0.len() - 1] as int);
                } else if b < order.len() {
                    assert(more[b] == order[b]);
                    assert(order[b] != st0[st0.len() - 1] as int);
                }
            }
            assert forall|k: int| 0 <= k < more.len() implies 0 <= #[trigger] more[k] < n by {
                if k < order.len() {
                    assert(more[k] == order[k]);
                }
            }
            lemma_distinct_cells(more, n as int);
        }
        let i = stack.pop().unwrap();
        let ghost st1 = stack@;
        let ghost c1 = claimed@;
        let ghost order0 = order;
        proof {
            assert(st0 =~= st1.push(i));
            assert(i == st0[st0.len() - 1]);
        }
        let x = i % w;
        let y = i / w;
        assert(x < 0x1_0000_0000 && y < 0x1_0000_0000) by (nonlinear_arith)
            requires
                x == i % w,
                y == i / w,
                w >= 1,
                i < n,
                n <= u32::MAX,
        ;
        pixels.push((x as u32, y as u32));
        if level[i] < threshold {
            seeds = seeds + 1;
        }
        sx = sx + x as u128;
        sy = sy + y as u128;
        proof {
            order = order.push(i as int);
            assert(order.drop_last() =~= order0);
            assert(pixels@ =~= positions(w as int, order));
        }
        visit_neighbours(level, w, grow, claimed, &mut stack, i);
        proof {
            assert(st0.drop_last() =~= st1);
            let rest = dfs(lv, w as int, grow, claimed@, stack@, (fuel - 1) as nat);
            assert(order0 + dfs(lv, w as int, grow, c1, st0, fuel) == order0 + (seq![i as int] + rest));
            assert(order + rest =~= order0 + (seq![i as int] + rest));
            let added = stack@.subrange(st1.len() as int, stack@.len() as int);
            assert forall|q: int| 0 <= q < n && #[trigger] claimed@[q] && !old_c[q] implies order.contains(q)
                || stack@.contains(q as usize) by {
                if c1[q] {
                    if order0.contains(q) {
                        let k = choose|k: int| 0 <= k < order0.len() && order0[k] == q;
                        assert(order[k] == q);
                    } else if q == i as int {
                        assert(order[order.len() - 1] == q);
                    } else {
                        assert(st0.contains(q as usize));
                        let k = choose|k: int| 0 <= k < st0.len() && st0[k] == q as usize;
                        assert(k < st1.len());
                        assert(stack@[k] == st1[k]);
                    }
                } else {
                    let k = choose|k: int| 0 <= k < added.len() && added[k] == q as usize;
                    assert(stack@[st1.len() + k] == q as usize);
                }
            }
            assert forall|k: int| 0 <= k < stack@.len() implies #[trigger] stack@[k] < n
                && claimed@[stack@[k] as int] && !old_c[stack@[k] as int] by {
                if k < st1.len() {
                    assert(stack@[k] == st1[k] && st1[k] == st0[k]);
                } else {
                    assert(stack@[k] == added[k - st1.len()]);
                }
            }
            assert forall|k: int| 0 <= k < order.len() implies 0 <= #[trigger] order[k] < n
                && claimed@[order[k]] && !old_c[order[k]] by {
                if k < order0.len() {
                    assert(order[k] == order0[k]);
                }
            }
            assert forall|a: int, b: int| 0 <= a < order.len() && 0 <= b < order.len() && a != b implies order[a]
                != order[b] by {
                if a < order0.len() && b < order0.len() {
                } else if a < order0.len() {
                    assert(order0[a] != st0[st0.len() - 1] as int);
                } else if b < order0.len() {
                    assert(order0[b] != st0[st0.len() - 1] as int);
                }
            }
            assert forall|a: int, b: int| 0 <= a < stack@.len() && 0 <= b < stack@.len() && a != b implies stack@[a]
                != stack@[b] by {
                if a < st1.len() && b < st1.len() {
                    assert(stack@[a] == st0[a] && stack@[b] == st0[b]);
                } else if a < st1.len() {
                    assert(stack@[a] == st0[a]);
                    assert(stack@[b] == added[b - st1.len()]);
                    assert(c1[st0[a] as int]);
                } else if b < st1.len() {
                    assert(stack@[b] == st0[b]);
                    assert(stack@[a] == added[a - st1.len()]);
                    assert(c1[st0[b] as int]);
                } else {
                    assert(stack@[a] == added[a - st1.len()]);
                    assert(stack@[b] == added[b - st1.len()]);
                }
            }
            assert forall|a: int, b: int| 0 <= a < order.len() && 0 <= b < stack@.len() implies #[trigger] order[a]
                != #[trigger] stack@[b] as int by {
                if b < st1.len() {
                    assert(stack@[b] == st0[b]);
                    if a < order0.len() {
                        assert(order[a] == order0[a]);
                    } else {
                        assert(st0[b] != st0[st0.len() - 1]);
                    }
                } else {
                    assert(stack@[b] == added[b - st1.len()]);
                    assert(c1[order[a]]);
                }
            }
            assert forall|q: int| 0 <= q < n && #[trigger] claimed@[q] && !old_c[q] implies reach.contains(q) by {
                if !c1[q] {
                    let k = choose|k: int| 0 <= k < added.len() && added[k] == q as usize;
                    assert(grid_adj(w as int, n as int, i as int, q));
                    assert(c1[i as int]);
                    lemma_reach_step(lv, w as int, grow, taken, s as int, i as int, q);
                }
            }
            assert forall|k: int, j: int| 0 <= k < order.len() && #[trigger] grid_adj(
                w as int,
                n as int,
                order[k],
                j,
            ) && lv[j] < grow implies claimed@[j] by {
                if k < order0.len() {
                    assert(order[k] == order0[k]);
                    assert(c1[j]);
                }
            }
            lemma_distinct_cells(order, n as int);
        }
    }
    proof {
        assert(order + dfs(lv, w as int, grow, claimed@, stack@, (n - order.len()) as nat) =~= order);
        let comp = order.to_set();
        assert forall|i: int, j: int|
            #![trigger grid_adj(w as int, lv.len() as int, i, j), comp.contains(j)]
            comp.contains(i) && grid_adj(w as int, lv.len() as int, i, j) && lv[j] < grow
                && !taken.contains(j) implies comp.contains(j) by {
            let k = choose|k: int| 0 <= k < order.len() && order[k] == i;
            assert(claimed@[j]);
            assert(!old_c[j]);
        }
        assert(comp.contains(s as int));
        lemma_closed_holds_reached(lv, w as int, grow, taken, s as int, comp);
        assert(comp =~= reach);
        assert(marked(claimed@) =~= taken.union(reach));
    }
    Region { pixels, seeds, sum_x: sx, sum_y: sy, order: Ghost(order) }
}

// ------------------------------------------------------------------ tallies and choice

/// Over the cells of `c` among the first `k`: how many there are, how many are seeds (darker
/// than `threshold`), and the sums of their columns and of their rows.
pub open spec fn tally(lv: Seq<u8>, w: int, threshold: u8, c: Set<int>, k: int) -> (int, int, int, int)
    decreases k,
{
    if k <= 0 {
        (0, 0, 0, 0)
    } else {
        let r = tally(lv, w, threshold, c, k - 1);
        if c.contains(k - 1) {
            (
                r.0 + 1,
                r.1 + if lv[k - 1] < threshold {
                    1int
                } else {
                    0
                },
                r.2 + (k - 1) % w,
                r.3 + (k - 1) / w,
            )
        } else {
            r
        }
    }
}

/// A region fits a screen in a `w` x `h` grid (tallies `t`): at least 0.3 % of the grid is
/// seed cells, at most 60 % of it is the region, and the region's centre lies within 12 % to
/// 88 % of the width and 8 % to 92 % of the height. The fractions are compared exactly.
pub open spec fn fits_screen(t: (int, int, int, int), w: int, h: int) -> bool {
    let n = w * h;
    &&& 1000 * t.1 >= 3 * n
    &&& 5 * t.0 <= 3 * n
    &&& 12 * t.0 * w <= 100 * t.2
    &&& 100 * t.2 <= 88 * t.0 * w
    &&& 8 * t.0 * h <= 100 * t.3
    &&& 100 * t.3 <= 92 * t.0 * h
}

/// The claims of the cells in `taken`, for a grid of `n` cells.
pub open spec fn claims_of(taken: Set<int>, n: int) -> Seq<bool> {
    Seq::new(n as nat, |i: int| taken.contains(i))
}

/// The regions seeded among the first `k` cells, scanned row by row: the cells they hold,
/// and the best screen so far (the first region with the most seed cells among those that
/// fit a screen) with its seed count and the order its cells were visited in. A seed cell
/// that an earlier region holds starts none.
pub open spec fn scan(lv: Seq<u8>, w: int, h: int, threshold: u8, grow: u8, k: int) -> (
    Set<int>,
    Option<(Set<int>, int, Seq<int>)>,
)
    decreases k,
{
    if k <= 0 {
        (Set::empty(), None)
    } else {
        let (taken, best) = scan(lv, w, h, threshold, grow, k - 1);
        let s = k - 1;
        if lv[s] >= threshold || taken.contains(s) {
            (taken, best)
        } else {
            let c = reached(lv, w, grow, taken, s);
            let t = tally(lv, w, threshold, c, w * h);
            let better = match best {
                None => true,
                Some(b) => t.1 > b.1,
            };
            if fits_screen(t, w, h) && better {
                (taken.union(c), Some((c, t.1, flood_order(lv, w, grow, claims_of(taken, w * h), s))))
            } else {
                (taken.union(c), best)
            }
        }
    }
}

proof fn lemma_tally_same(lv: Seq<u8>, w: int, threshold: u8, c1: Set<int>, c2: Set<int>, k: int)
    requires
        forall|i: int| 0 <= i < k ==> (c1.contains(i) <==> c2.contains(i)),
    ensures
        tally(lv, w, threshold, c1, k) == tally(lv, w, threshold, c2, k),
    decreases k,
{
    if k > 0 {
        lemma_tally_same(lv, w, threshold, c1, c2, k - 1);
    }
}

proof fn lemma_tally_insert(lv: Seq<u8>, w: int, threshold: u8, c: Set<int>, e: int, k: int)
    requires
        !c.contains(e),
        0 <= e < k,
    ensures
        ({
            let a = tally(lv, w, threshold, c.insert(e), k);
            let b = tally(lv, w, threshold, c, k);
            &&& a.0 == b.0 + 1
            &&& a.1 == b.1 + if lv[e] < threshold {
                1int
            } else {
                0
            }
            &&& a.2 == b.2 + e % w
            &&& a.3 == b.3 + e / w
        }),
    decreases k,
{
    if e == k - 1 {
        lemma_tally_same(lv, w, threshold, c.insert(e), c, k - 1);
    } else {
        lemma_tally_insert(lv, w, threshold, c, e, k - 1);
    }
}

/// The tallies of a region equal those summed in the order its cells were visited.
proof fn lemma_tally_order(lv: Seq<u8>, w: int, threshold: u8, o: Seq<int>, n: int)
    requires
        o.no_duplicates(),
        forall|k: int| 0 <= k < o.len() ==> 0 <= #[trigger] o[k] < n,
    ensures
        tally(lv, w, threshold, o.to_set(), n) == (
            o.len() as int,
            seq_seeds(lv, threshold, o),
            seq_sum_x(w, o),
            seq_sum_y(w, o),
        ),
    decreases o.len(),
{
    if o.len() == 0 {
        assert(o.to_set() =~= Set::<int>::empty());
        lemma_tally_empty(lv, w, threshold, o.to_set(), n);
    } else {
        let p = o.drop_last();
        let e = o.last();
        assert forall|k: int| 0 <= k < p.len() implies 0 <= #[trigger] p[k] < n by {
            assert(p[k] == o[k]);
        }
        assert forall|a: int, b: int| 0 <= a < p.len() && 0 <= b < p.len() && a != b implies p[a] != p[b] by {
            assert(p[a] == o[a] && p[b] == o[b]);
        }
        lemma_tally_order(lv, w, threshold, p, n);
        assert(o.to_set() =~= p.to_set().insert(e)) by {
            assert(o =~= p.push(e));
            assert forall|x: int| o.to_set().contains(x) implies p.to_set().insert(e).contains(x) by {
                let k = choose|k: int| 0 <= k < o.len() && o[k] == x;
                if k < p.len() {
                    assert(p[k] == x);
                }
            }
            assert forall|x: int| p.to_set().insert(e).contains(x) implies o.to_set().contains(x) by {
                if x == e {
                    assert(o[o.len() - 1] == x);
                } else {
                    let k = choose|k: int| 0 <= k < p.len() && p[k] == x;
                    assert(o[k] == x);
                }
            }
        }
        assert(!p.to_set().contains(e)) by {
            if p.to_set().contains(e) {
                let k = choose|k: int| 0 <= k < p.len() && p[k] == e;
                assert(o[k] == o[o.len() - 1]);
            }
        }
        lemma_tally_insert(lv, w, threshold, p.to_set(), e, n);
    }
}

proof fn lemma_tally_empty(lv: Seq<u8>, w: int, threshold: u8, c: Set<int>, k: int)
    requires
        c == Set::<int>::empty(),
    ensures
        tally(lv, w, threshold, c, k) == (0int, 0int, 0int, 0int),
    decreases k,
{
    if k > 0 {
        lemma_tally_empty(lv, w, threshold, c, k - 1);
    }
}

/// Grid positions name their cells back.
proof fn lemma_positions(w: int, o: Seq<int>, n: int)
    requires
        w >= 1,
        n <= u32::MAX,
        forall|k: int| 0 <= k < o.len() ==> 0 <= #[trigger] o[k] < n,
    ensures
        cells_of(w, positions(w, o)) == o,
        forall|k: int|
            0 <= k < o.len() ==> (#[trigger] positions(w, o)[k]).0 < w,
{
    let px = positions(w, o);
    assert forall|k: int| 0 <= k < o.len() implies #[trigger] cells_of(w, px)[k] == o[k] && px[k].0
        < w by {
        let i = o[k];
        vstd::arithmetic::div_mod::lemma_fundamental_div_mod(i, w);
        assert(0 <= i % w < w && 0 <= i % w <= i && 0 <= i / w <= i) by (nonlinear_arith)
            requires
                w >= 1,
                i >= 0,
        ;
        assert(px[k] == coords(w, i));
        assert(px[k].0 as int == i % w && px[k].1 as int == i / w);
        assert((i / w) * w + i % w == i) by (nonlinear_arith)
            requires
                i == w * (i / w) + (i % w),
        ;
        assert(cells_of(w, px)[k] == cell_of(w, px[k]));
    }
    assert(cells_of(w, px) =~= o);
}

/// Cell `s` starts a region of the scan: it is a seed (darker than `threshold`) that no region
/// seeded before it holds.
pub open spec fn starts_region(lv: Seq<u8>, w: int, h: int, threshold: u8, grow: u8, s: int) -> bool {
    &&& 0 <= s < w * h
    &&& lv[s] < threshold
    &&& !scan(lv, w, h, threshold, grow, s).0.contains(s)
}

/// The region that grows from `s`: the cells a flood from `s` reaches past earlier regions.
pub open spec fn region_from(lv: Seq<u8>, w: int, h: int, threshold: u8, grow: u8, s: int) -> Set<int> {
    reached(lv, w, grow, scan(lv, w, h, threshold, grow, s).0, s)
}

/// How many seed cells (darker than `threshold`) region `c` of a `w` x `h` grid holds.
pub open spec fn seed_cells(lv: Seq<u8>, w: int, h: int, threshold: u8, c: Set<int>) -> int {
    tally(lv, w, threshold, c, w * h).1
}

/// Region `c` fits a screen.
pub open spec fn region_fits(lv: Seq<u8>, w: int, h: int, threshold: u8, c: Set<int>) -> bool {
    fits_screen(tally(lv, w, threshold, c, w * h), w, h)
}

proof fn lemma_scan_best(lv: Seq<u8>, w: int, h: int, threshold: u8, grow: u8, k: int)
    requires
        0 <= k <= w * h,
    ensures
        match scan(lv, w, h, threshold, grow, k).1 {
            None => forall|s: int|
                0 <= s < k && #[trigger] starts_region(lv, w, h, threshold, grow, s) ==> !region_fits(
                    lv,
                    w,
                    h,
                    threshold,
                    region_from(lv, w, h, threshold, grow, s),
                ),
            Some((c, m, _)) => {
                &&& m == seed_cells(lv, w, h, threshold, c)
                &&& region_fits(lv, w, h, threshold, c)
                &&& exists|b: int|
                    0 <= b < k && #[trigger] starts_region(lv, w, h, threshold, grow, b)
                        && region_from(lv, w, h, threshold, grow, b) == c && (forall|s: int|
                        0 <= s < k && #[trigger] starts_region(lv, w, h, threshold, grow, s)
                            && region_fits(lv, w, h, threshold, region_from(lv, w, h, threshold, grow, s))
                            ==> seed_cells(lv, w, h, threshold, region_from(lv, w, h, threshold, grow, s)) <= m
                            && (s < b ==> seed_cells(
                            lv,
                            w,
                            h,
                            threshold,
                            region_from(lv, w, h, threshold, grow, s),
                        ) < m))
            },
        },
    decreases k,
{
    if k > 0 {
        lemma_scan_best(lv, w, h, threshold, grow, k - 1);
        let s0 = k - 1;
        let prev = scan(lv, w, h, threshold, grow, s0);
        if starts_region(lv, w, h, threshold, grow, s0) {
            let c = region_from(lv, w, h, threshold, grow, s0);
            let t = tally(lv, w, threshold, c, w * h);
            let better = match prev.1 {
                None => true,
                Some(b) => t.1 > b.1,
            };
            if fits_screen(t, w, h) && better {
                assert(starts_region(lv, w, h, threshold, grow, s0));
                assert forall|s: int|
                    0 <= s < k && #[trigger] starts_region(lv, w, h, threshold, grow, s) && region_fits(
                        lv,
                        w,
                        h,
                        threshold,
                        region_from(lv, w, h, threshold, grow, s),
                    ) implies seed_cells(lv, w, h, threshold, region_from(lv, w, h, threshold, grow, s))
                    <= t.1 && (s < s0 ==> seed_cells(
                    lv,
                    w,
                    h,
                    threshold,
                    region_from(lv, w, h, threshold, grow, s),
                ) < t.1) by {
                    if s < s0 {
                        match prev.1 {
                            None => {},
                            Some((bc, bm, bo)) => {
                                let b = choose|b: int|
                                    0 <= b < s0 && #[trigger] starts_region(lv, w, h, threshold, grow, b)
                                        && region_from(lv, w, h, threshold, grow, b) == bc && (forall|
                                        s: int,
                                    |
                                        0 <= s < s0 && #[trigger] starts_region(lv, w, h, threshold, grow, s)
                                            && region_fits(
                                            lv,
                                            w,
                                            h,
                                            threshold,
                                            region_from(lv, w, h, threshold, grow, s),
                                        ) ==> seed_cells(
                                            lv,
                                            w,
                                            h,
                                            threshold,
                                            region_from(lv, w, h, threshold, grow, s),
                                        ) <= bm && (s < b ==> seed_cells(
                                            lv,
                                            w,
                                            h,
                                            threshold,
                                            region_from(lv, w, h, threshold, grow, s),
                                        ) < bm));
                            },
                        }
                    }
                }
            } else {
                match prev.1 {
                    None => {},
                    Some((bc, bm, bo)) => {
                        let b = choose|b: int|
                            0 <= b < s0 && #[trigger] starts_region(lv, w, h, threshold, grow, b)
                                && region_from(lv, w, h, threshold, grow, b) == bc && (forall|s: int|
                                0 <= s < s0 && #[trigger] starts_region(lv, w, h, threshold, grow, s)
                                    && region_fits(lv, w, h, threshold, region_from(lv, w, h, threshold, grow, s))
                                    ==> seed_cells(lv, w, h, threshold, region_from(lv, w, h, threshold, grow, s))
                                    <= bm && (s < b ==> seed_cells(
                                    lv,
                                    w,
                                    h,
                                    threshold,
                                    region_from(lv, w, h, threshold, grow, s),
                                ) < bm));
                        assert(starts_region(lv, w, h, threshold, grow, b));
                    },
                }
            }
        } else {
            match prev.1 {
                None => {},
                Some((bc, bm, bo)) => {
                    let b = choose|b: int|
                        0 <= b < s0 && #[trigger] starts_region(lv, w, h, threshold, grow, b)
                            && region_from(lv, w, h, threshold, grow, b) == bc && (forall|s: int|
                            0 <= s < s0 && #[trigger] starts_region(lv, w, h, threshold, grow, s)
                                && region_fits(lv, w, h, threshold, region_from(lv, w, h, threshold, grow, s))
                                ==> seed_cells(lv, w, h, threshold, region_from(lv, w, h, threshold, grow, s))
                                <= bm && (s < b ==> seed_cells(
                                lv,
                                w,
                                h,
                                threshold,
                                region_from(lv, w, h, threshold, grow, s),
                            ) < bm));
                    assert(starts_region(lv, w, h, threshold, grow, b));
                },
            }
        }
    }
}

/// The screen is the region with the most seed cells among those that fit a screen, and among
/// regions with as many seeds, the one seeded first; there is none exactly when no region
/// fits a screen.
pub proof fn screen_is_the_first_region_with_most_seeds(
    lv: Seq<u8>,
    w: int,
    h: int,
    threshold: u8,
    grow: u8,
)
    requires
        0 <= w,
        0 <= h,
    ensures
        scan(lv, w, h, threshold, grow, w * h).1 is None <==> (forall|s: int|
            #[trigger] starts_region(lv, w, h, threshold, grow, s) ==> !region_fits(
                lv,
                w,
                h,
                threshold,
                region_from(lv, w, h, threshold, grow, s),
            )),
        scan(lv, w, h, threshold, grow, w * h).1 matches Some((c, _, _)) ==> exists|b: int|
            #[trigger] starts_region(lv, w, h, threshold, grow, b) && region_from(
                lv,
                w,
                h,
                threshold,
                grow,
                b,
            ) == c && region_fits(lv, w, h, threshold, c) && (forall|s: int|
                #[trigger] starts_region(lv, w, h, threshold, grow, s) && region_fits(
                    lv,
                    w,
                    h,
                    threshold,
                    region_from(lv, w, h, threshold, grow, s),
                ) ==> seed_cells(lv, w, h, threshold, region_from(lv, w, h, threshold, grow, s))
                    <= seed_cells(lv, w, h, threshold, c) && (s < b ==> seed_cells(
                    lv,
                    w,
                    h,
                    threshold,
                    region_from(lv, w, h, threshold, grow, s),
                ) < seed_cells(lv, w, h, threshold, c))),
{
    assert(0 <= w * h) by (nonlinear_arith)
        requires
            0 <= w,
            0 <= h,
    ;
    lemma_scan_best(lv, w, h, threshold, grow, w * h);
    match scan(lv, w, h, threshold, grow, w * h).1 {
        None => {},
        Some((c, m, o)) => {
            assert(region_fits(lv, w, h, threshold, c));
            let b = choose|b: int|
                0 <= b < w * h && #[trigger] starts_region(lv, w, h, threshold, grow, b)
                    && region_from(lv, w, h, threshold, grow, b) == c && (forall|s: int|
                    0 <= s < w * h && #[trigger] starts_region(lv, w, h, threshold, grow, s)
                        && region_fits(lv, w, h, threshold, region_from(lv, w, h, threshold, grow, s))
                        ==> seed_cells(lv, w, h, threshold, region_from(lv, w, h, threshold, grow, s))
                        <= m && (s < b ==> seed_cells(
                        lv,
                        w,
                        h,
                        threshold,
                        region_from(lv, w, h, threshold, grow, s),
                    ) < m));
            assert(starts_region(lv, w, h, threshold, grow, b));
        },
    }
}

/// The screen region of a darkness grid of `w` x `h` cells (row by row): the cells of the
/// best screen of `scan`, as grid positions, or `None` when no region fits a screen.
pub fn screen_region(level: &[u8], w: u32, h: u32, threshold: u8, grow: u8) -> (r: Option<Vec<(u32, u32)>>)
    requires
        level@.len() == w * h,
        w * h <= u32::MAX,
    ensures
        match scan(level@, w as int, h as int, threshold, grow, w * h).1 {
            None => r is None,
            Some((c, _, o)) => r matches Some(px) && px@ == positions(w as int, o) && lists(
                px@,
                w as int,
                c,
            ),
        },
{
    let n = level.len();
    let wu = w as usize;
    let mut claimed: Vec<bool> = Vec::new();
    let mut k: usize = 0;
    while k < n
        invariant
            k <= n,
            claimed@.len() == k,
            forall|i: int| 0 <= i < k ==> !#[trigger] claimed@[i],
        decreases n - k,
    {
        claimed.push(false);
        k = k + 1;
    }
    proof {
        assert(marked(claimed@) =~= Set::<int>::empty());
    }
    let mut best: Option<(Vec<(u32, u32)>, u64)> = None;
    let mut start: usize = 0;
    while start < n
        invariant
            n == level@.len(),
            n == w * h,
            n <= u32::MAX,
            wu == w,
            start <= n,
            claimed@.len() == n,
            marked(claimed@) == scan(level@, w as int, h as int, threshold, grow, start as int).0,
            match (best, scan(level@, w as int, h as int, threshold, grow, start as int).1) {
                (None, None) => true,
                (Some(b), Some(c)) => b.1 == c.1 && b.0@ == positions(w as int, c.2) && lists(
                    b.0@,
                    w as int,
                    c.0,
                ),
                _ => false,
            },
        decreases n - start,
    {
        let ghost prev = scan(level@, w as int, h as int, threshold, grow, start as int);
        if level[start] < threshold && !claimed[start] {
            assert(w >= 1 && wu <= n) by (nonlinear_arith)
                requires
                    n == w * h,
                    start < n,
                    wu == w,
            ;
            proof {
                assert(claimed@ =~= claims_of(prev.0, w * h));
            }
            let region = flood(level, wu, grow, threshold, &mut claimed, start);
            let ghost c = reached(level@, w as int, grow, prev.0, start as int);
            let ghost t = tally(level@, w as int, threshold, c, w * h);
            proof {
                lemma_tally_order(level@, w as int, threshold, region.order@, n as int);
                lemma_distinct_cells(region.order@, n as int);
            }
            let cells = region.pixels.len() as u128;
            let seeds = region.seeds as u128;
            let area = n as u128;
            let wide = w as u128;
            let high = h as u128;
            assert(cells * wide <= 0x1_0000_0000 * 0x1_0000_0000 && cells * high <= 0x1_0000_0000
                * 0x1_0000_0000) by (nonlinear_arith)
                requires
                    cells <= n,
                    n <= u32::MAX,
                    wide <= u32::MAX,
                    high <= u32::MAX,
            ;
            let cw = cells * wide;
            let ch = cells * high;
            let fits = 1000 * seeds >= 3 * area && 5 * cells <= 3 * area && 12 * cw <= 100
                * region.sum_x && 100 * region.sum_x <= 88 * cw && 8 * ch <= 100 * region.sum_y && 100
                * region.sum_y <= 92 * ch;
            let better = match &best {
                None => true,
                Some(b) => region.seeds > b.1,
            };
            proof {
                assert(t == (cells as int, seeds as int, region.sum_x as int, region.sum_y as int));
                assert(12 * cw == 12 * cells * wide && 88 * cw == 88 * cells * wide && 8 * ch == 8
                    * cells * high && 92 * ch == 92 * cells * high) by (nonlinear_arith)
                    requires
                        cw == cells * wide,
                        ch == cells * high,
                ;
                assert(fits == fits_screen(t, w as int, h as int));
                lemma_positions(w as int, region.order@, n as int);
            }
            if fits && better {
                best = Some((region.pixels, region.seeds));
            }
        }
        start = start + 1;
    }
    match best {
        Some(b) => Some(b.0),
        None => None,
    }
}

// ------------------------------------------------------------------ the darkness grid

/// How bright pixel `p` of an RGB image is: its brightest channel.
pub open spec fn brightness(rgb: Seq<u8>, p: int) -> int {
    let r = rgb[3 * p] as int;
    let g = rgb[3 * p + 1] as int;
    let b = rgb[3 * p + 2] as int;
    if r >= g && r >= b {
        r
    } else if g >= b {
        g
    } else {
        b
    }
}

/// Sum of the brightness of the `k` pixels from pixel `p` on.
pub open spec fn run_brightness(rgb: Seq<u8>, p: int, k: int) -> int
    decreases k,
{
    if k <= 0 {
        0
    } else {
        run_brightness(rgb, p, k - 1) + brightness(rgb, p + k - 1)
    }
}

/// Sum of the brightness over the first `k` pixel rows of grid cell (`x`, `y`), whose cells are
/// `scale` pixels square, in an image `width` pixels wide.
pub open spec fn cell_brightness(rgb: Seq<u8>, width: int, scale: int, x: int, y: int, k: int) -> int
    decreases k,
{
    if k <= 0 {
        0
    } else {
        cell_brightness(rgb, width, scale, x, y, k - 1) + run_brightness(
            rgb,
            (y * scale + k - 1) * width + x * scale,
            scale,
        )
    }
}

/// Pixels per grid cell side: one per 1400 pixels of the image's longer side, at least one.
pub open spec fn grid_scale(width: int, height: int) -> int {
    let m = if width >= height {
        width
    } else {
        height
    };
    if m / 1400 >= 1 {
        m / 1400
    } else {
        1
    }
}

/// The darkness level of grid cell (`x`, `y`): 255 at or below the hinge row (nothing there
/// is screen), else the mean brightness of the cell's pixels.
pub open spec fn level_at(rgb: Seq<u8>, width: int, height: int, hinge: Option<u32>, x: int, y: int) -> u8 {
    let s = grid_scale(width, height);
    if hinge matches Some(r) && y * s >= r {
        255
    } else {
        (cell_brightness(rgb, width, s, x, y, s) / (s * s)) as u8
    }
}

/// The darkness grid of an image, row by row.
pub open spec fn levels(rgb: Seq<u8>, width: int, height: int, hinge: Option<u32>) -> Seq<u8> {
    let s = grid_scale(width, height);
    let w = width / s;
    Seq::new((w * (height / s)) as nat, |i: int| level_at(rgb, width, height, hinge, i % w, i / w))
}

/// The grid is at most 2800 cells on a side.
proof fn lemma_grid_size(width: int, height: int)
    requires
        width >= 0,
        height >= 0,
    ensures
        grid_scale(width, height) >= 1,
        width / grid_scale(width, height) < 2800,
        height / grid_scale(width, height) < 2800,
        (width / grid_scale(width, height)) * grid_scale(width, height) <= width,
        (height / grid_scale(width, height)) * grid_scale(width, height) <= height,
{
    let m = if width >= height {
        width
    } else {
        height
    };
    let s = grid_scale(width, height);
    assert(width / s < 2800 && height / s < 2800) by (nonlinear_arith)
        requires
            s >= 1,
            width <= m,
            height <= m,
            m >= 0,
            m / 1400 >= 1 ==> s == m / 1400,
            m / 1400 < 1 ==> s == 1,
    ;
    assert((width / s) * s <= width && (height / s) * s <= height) by (nonlinear_arith)
        requires
            s >= 1,
            width >= 0,
            height >= 0,
    ;
}

/// A darkness grid: `w` x `h` cells of `scale` x `scale` pixels each.
pub struct DarkGrid {
    pub level: Vec<u8>,
    pub w: u32,
    pub h: u32,
    pub scale: u32,
}

/// Reduces an RGB image (`width` x `height` pixels, three bytes each, row by row) to its
/// darkness grid; `hinge` is the first pixel row that lies below the laptop's hinge.
pub fn dark_levels(rgb: &[u8], width: u32, height: u32, hinge: Option<u32>) -> (g: DarkGrid)
    requires
        rgb@.len() == 3 * width * height,
    ensures
        g.scale == grid_scale(width as int, height as int),
        g.w == width / g.scale,
        g.h == height / g.scale,
        g.w < 2800 && g.h < 2800,
        g.level@ == levels(rgb@, width as int, height as int, hinge),
{
    proof {
        lemma_grid_size(width as int, height as int);
    }
    let m = if width >= height {
        width
    } else {
        height
    };
    let scale: u32 = if m / 1400 >= 1 {
        m / 1400
    } else {
        1
    };
    let w = width / scale;
    let h = height / scale;
    assert(scale <= 3_067_963 && scale * scale <= 3_067_963 * 3_067_963) by (nonlinear_arith)
        requires
            scale == m / 1400 || scale == 1,
            m <= u32::MAX,
            scale >= 1,
    ;
    let total = rgb.len();
    assert(width * height <= 0x5555_5555_5555_5555) by (nonlinear_arith)
        requires
            total == 3 * width * height,
            total <= usize::MAX,
    ;
    let ghost lv = levels(rgb@, width as int, height as int, hinge);
    let ghost sc = scale as int;
    let ghost ww = width as int;
    let mut level: Vec<u8> = Vec::new();
    let mut y: u32 = 0;
    while y < h
        invariant
            sc == scale,
            scale as int == grid_scale(width as int, height as int),
            scale >= 1,
            w == width / scale,
            h == height / scale,
            w < 2800 && h < 2800,
            w * scale <= width,
            h * scale <= height,
            scale <= 3_067_963,
            width * height <= 0x5555_5555_5555_5555,
            rgb@.len() == 3 * width * height,
            total == rgb@.len(),
            ww == width,
            lv == levels(rgb@, width as int, height as int, hinge),
            y <= h,
            level@.len() == y * w,
            forall|i: int| 0 <= i < y * w ==> #[trigger] level@[i] == lv[i],
        decreases h - y,
    {
        let mut x: u32 = 0;
        while x < w
            invariant
                sc == scale,
                scale as int == grid_scale(width as int, height as int),
                scale >= 1,
                w == width / scale,
                h == height / scale,
                w < 2800 && h < 2800,
                w * scale <= width,
                h * scale <= height,
                scale <= 3_067_963,
                width * height <= 0x5555_5555_5555_5555,
                rgb@.len() == 3 * width * height,
                total == rgb@.len(),
                ww == width,
                lv == levels(rgb@, width as int, height as int, hinge),
                y < h,
                x <= w,
                level@.len() == y * w + x,
                forall|i: int| 0 <= i < y * w + x ==> #[trigger] level@[i] == lv[i],
            decreases w - x,
        {
            assert(y * scale < height && (y * scale) * 1 <= 0xffff_ffff) by (nonlinear_arith)
                requires
                    scale >= 1,
                    y < h,
                    h * scale <= height,
                    height <= u32::MAX,
            ;
            let below = match hinge {
                Some(r) => y as u64 * scale as u64 >= r as u64,
                None => false,
            };
            let v: u8 = if below {
                255
            } else {
                let mut sum: u64 = 0;
                let mut yy: u32 = 0;
                while yy < scale
                    invariant
                        sc == scale,
                        ww == width,
                        scale >= 1,
                        w * scale <= width,
                        h * scale <= height,
                        scale <= 3_067_963,
                        width * height <= 0x5555_5555_5555_5555,
                        y * scale < height,
                        rgb@.len() == 3 * width * height,
                        total == rgb@.len(),
                        y < h,
                        x < w,
                        yy <= scale,
                        sum == cell_brightness(rgb@, ww, sc, x as int, y as int, yy as int),
                        sum <= 255 * scale * yy,
                    decreases scale - yy,
                {
                    assert(y * scale + yy < height && x * scale < width) by (nonlinear_arith)
                        requires
                            y < h,
                            x < w,
                            yy < scale,
                            w * scale <= width,
                            h * scale <= height,
                    ;
                    let row = y as u64 * scale as u64 + yy as u64;
                    assert(row * width + x * scale < width * height) by (nonlinear_arith)
                        requires
                            row < height,
                            x * scale < width,
                    ;
                    let first = row * width as u64 + x as u64 * scale as u64;
                    assert(row < height && x * scale + scale <= width && first + scale <= row
                        * width + width && (row + 1) * width <= height * width) by (nonlinear_arith)
                        requires
                            row == y * scale + yy,
                            first == row * width + x * scale,
                            y < h,
                            x < w,
                            yy < scale,
                            w * scale <= width,
                            h * scale <= height,
                    ;
                    assert(3 * (first + scale) <= rgb@.len()) by (nonlinear_arith)
                        requires
                            first + scale <= row * width + width,
                            (row + 1) * width <= height * width,
                            rgb@.len() == 3 * width * height,
                    ;
                    let mut run: u64 = 0;
                    let mut xx: u32 = 0;
                    while xx < scale
                        invariant
                            scale >= 1,
                            scale <= 3_067_963,
                            total == rgb@.len(),
                            3 * (first + scale) <= rgb@.len(),
                            xx <= scale,
                            run == run_brightness(rgb@, first as int, xx as int),
                            run <= 255 * xx,
                        decreases scale - xx,
                    {
                        let p = ((first + xx as u64) * 3) as usize;
                        let r = rgb[p];
                        let g = rgb[p + 1];
                        let b = rgb[p + 2];
                        let bright = if r >= g && r >= b {
                            r
                        } else if g >= b {
                            g
                        } else {
                            b
                        };
                        run = run + bright as u64;
                        xx = xx + 1;
                    }
                    proof {
                        assert(first as int == (y * sc + yy) * ww + x * sc) by (nonlinear_arith)
                            requires
                                first == row * width + x * scale,
                                row == y * scale + yy,
                                sc == scale,
                                ww == width,
                        ;
                        assert(sum + run <= 255 * scale * (yy + 1) && 255 * scale * (yy + 1) <= 255
                            * 3_067_963 * 3_067_963) by (nonlinear_arith)
                            requires
                                sum <= 255 * scale * yy,
                                run <= 255 * scale,
                                yy < scale,
                                scale <= 3_067_963,
                        ;
                    }
                    sum = sum + run;
                    yy = yy + 1;
                }
                assert(scale * scale <= 3_067_963 * 3_067_963) by (nonlinear_arith)
                    requires
                        scale <= 3_067_963,
                ;
                let cells = scale as u64 * scale as u64;
                assert(cells >= 1) by (nonlinear_arith)
                    requires
                        cells == scale * scale,
                        scale >= 1,
                ;
                proof {
                    assert(sum / cells <= 255) by (nonlinear_arith)
                        requires
                            sum <= 255 * scale * scale,
                            cells == scale * scale,
                            scale >= 1,
                    ;
                }
                (sum / cells) as u8
            };
            proof {
                let i = y * w + x;
                assert(i % (w as int) == x && i / (w as int) == y) by (nonlinear_arith)
                    requires
                        i == y * w + x,
                        x < w,
                ;
                assert(i < w * h) by (nonlinear_arith)
                    requires
                        i == y * w + x,
                        x < w,
                        y < h,
                ;
                if below {
                    assert(v == level_at(rgb@, width as int, height as int, hinge, x as int, y as int));
                } else {
                    assert(v == level_at(rgb@, width as int, height as int, hinge, x as int, y as int));
                }
            }
            level.push(v);
            x = x + 1;
        }
        assert(y * w + w == (y + 1) * w) by (nonlinear_arith);
        y = y + 1;
    }
    proof {
        assert(lv.len() == w * h);
        assert(h * w == w * h) by (nonlinear_arith);
        assert(level@ =~= lv);
    }
    DarkGrid { level, w, h, scale }
}

/// The switched-off screen in a video frame (RGB, `width` x `height` pixels, three bytes
/// each, row by row): the cells of the best screen region of the frame's darkness grid, as
/// grid positions, with the grid's scale; `None` when no region fits a screen. Regions are
/// seeded by cells darker than `threshold` and grow through cells darker than `grow`; `hinge`
/// is the first pixel row below the laptop's hinge.
pub fn dark_component(rgb: &[u8], width: u32, height: u32, threshold: u8, grow: u8, hinge: Option<u32>) -> (r: Option<(Vec<(u32, u32)>, u32)>)
    requires
        rgb@.len() == 3 * width * height,
    ensures
        ({
            let s = grid_scale(width as int, height as int);
            let w = width as int / s;
            let h = height as int / s;
            match scan(levels(rgb@, width as int, height as int, hinge), w, h, threshold, grow, w * h).1 {
                None => r is None,
                Some((c, _, o)) => r matches Some((px, sc)) && sc == s && px@ == positions(w, o) && lists(
                    px@,
                    w,
                    c,
                ),
            }
        }),
{
    let g = dark_levels(rgb, width, height, hinge);
    assert(g.w * g.h < 2800 * 2800) by (nonlinear_arith)
        requires
            g.w < 2800,
            g.h < 2800,
    ;
    match screen_region(g.level.as_slice(), g.w, g.h, threshold, grow) {
        Some(px) => Some((px, g.scale)),
        None => None,
    }
}

} // verus!
