//! Design validation: required blocks, power balance, distinct cells, and
//! 6-neighbour connectivity from the command core.
use vstd::prelude::*;
use vstd::set_lib::{lemma_len_subset, lemma_subset_equality};
use crate::blocks::{block_stats, BlockType};
use crate::design::{lemma_total_order_independent, lemma_total_take_succ, stat_fits, total, BlockPlacement, Stat};
use crate::text::{decimal, decimal_string};

verus! {

broadcast use vstd::seq_lib::seq_to_set_is_finite;

/// A grid cell `(x, y, z)`.
pub type Cell = (i32, i32, i32);

/// The cell a block occupies.
pub open spec fn cell_of(b: BlockPlacement) -> Cell {
    (b.x, b.y, b.z)
}

/// The set of cells a design occupies.
pub open spec fn cell_set(blocks: Seq<BlockPlacement>) -> Set<Cell> {
    blocks.map_values(|b: BlockPlacement| cell_of(b)).to_set()
}

/// Two cells share a face: they differ by one in exactly one coordinate.
pub open spec fn adjacent(a: Cell, b: Cell) -> bool {
    let dx = a.0 - b.0;
    let dy = a.1 - b.1;
    let dz = a.2 - b.2;
    ||| (dx == 1 || dx == -1) && dy == 0 && dz == 0
    ||| dx == 0 && (dy == 1 || dy == -1) && dz == 0
    ||| dx == 0 && dy == 0 && (dz == 1 || dz == -1)
}

/// `p` is a non-empty walk through `cells`, each step to a face neighbour.
pub open spec fn is_walk(cells: Set<Cell>, p: Seq<Cell>) -> bool {
    &&& p.len() > 0
    &&& forall|i: int| 0 <= i < p.len() ==> cells.contains(#[trigger] p[i])
    &&& forall|i: int| 0 <= i < p.len() - 1 ==> adjacent(#[trigger] p[i], p[i + 1])
}

/// Some walk through `cells` leads from `a` to `b`.
pub open spec fn linked(cells: Set<Cell>, a: Cell, b: Cell) -> bool {
    exists|p: Seq<Cell>| #[trigger] is_walk(cells, p) && p[0] == a && p.last() == b
}

/// The cells reachable from `start` through `cells`.
pub open spec fn reachable_set(cells: Set<Cell>, start: Cell) -> Set<Cell> {
    cells.filter(|c: Cell| linked(cells, start, c))
}

/// The number of blocks of kind `t`.
pub open spec fn count_kind(blocks: Seq<BlockPlacement>, t: BlockType) -> nat
    decreases blocks.len(),
{
    if blocks.len() == 0 {
        0
    } else {
        count_kind(blocks.drop_last(), t) + if blocks.last().block_type == t {
            1nat
        } else {
            0nat
        }
    }
}

/// `i` is the index of the first command core.
pub open spec fn is_first_core(blocks: Seq<BlockPlacement>, i: int) -> bool {
    &&& 0 <= i < blocks.len()
    &&& blocks[i].block_type == BlockType::CommandCore
    &&& forall|j: int| 0 <= j < i ==> blocks[j].block_type != BlockType::CommandCore
}

/// The cell of the first command core (meaningful when there is one).
pub open spec fn core_start(blocks: Seq<BlockPlacement>) -> Cell {
    cell_of(blocks[choose|i: int| is_first_core(blocks, i)])
}

/// Cells that no walk joins to the first command core; zero without a core.
pub open spec fn detached_count(blocks: Seq<BlockPlacement>) -> int {
    if count_kind(blocks, BlockType::CommandCore) >= 1 {
        cell_set(blocks).len() - reachable_set(cell_set(blocks), core_start(blocks)).len()
    } else {
        0
    }
}

/// Every running sum of block power over a prefix of the design fits in an `i64`.
pub open spec fn power_fits(blocks: Seq<BlockPlacement>) -> bool {
    stat_fits(blocks, Stat::Power)
}

/// Reported for a design without blocks.
pub open spec fn msg_empty() -> Seq<char> {
    "design is empty"@
}

/// Reported when two blocks share a cell.
pub open spec fn msg_overlap() -> Seq<char> {
    "two or more blocks occupy the same cell"@
}

/// Reported when there is no command core.
pub open spec fn msg_no_core() -> Seq<char> {
    "needs at least 1 command core"@
}

/// Reported when there is no engine.
pub open spec fn msg_no_engine() -> Seq<char> {
    "needs at least 1 engine"@
}

/// Reported when the net power is negative, quoting it.
pub open spec fn msg_power(net: int) -> Seq<char> {
    "insufficient power: net "@ + decimal(net) + " (add a reactor)"@
}

/// Reported when blocks are cut off from the command core, quoting how many.
pub open spec fn msg_detached(n: int) -> Seq<char> {
    decimal(n) + " block(s) are not connected to the command core"@
}

/// `[m]` when `cond` holds, else nothing.
pub open spec fn msg_if(cond: bool, m: Seq<char>) -> Seq<Seq<char>> {
    if cond {
        seq![m]
    } else {
        Seq::empty()
    }
}

/// The texts of a list of strings.
pub open spec fn texts(v: Seq<String>) -> Seq<Seq<char>> {
    v.map_values(|s: String| s@)
}

/// The problems `validate` reports for a design, in report order.
pub open spec fn expected_problems(blocks: Seq<BlockPlacement>) -> Seq<Seq<char>> {
    if blocks.len() == 0 {
        seq![msg_empty()]
    } else {
        let cores = count_kind(blocks, BlockType::CommandCore);
        let power = total(blocks, Stat::Power);
        msg_if(cell_set(blocks).len() != blocks.len(), msg_overlap()) + msg_if(
            cores < 1,
            msg_no_core(),
        ) + msg_if(count_kind(blocks, BlockType::Engine) < 1, msg_no_engine()) + msg_if(
            power < 0,
            msg_power(power),
        ) + msg_if(cores >= 1 && detached_count(blocks) > 0, msg_detached(detached_count(blocks)))
    }
}

/// A design is valid iff it is non-empty, no two blocks share a cell, it has at
/// least one command core and one engine, its power balance is not negative,
/// and its cells form one 6-neighbour connected component.
pub open spec fn design_is_valid(blocks: Seq<BlockPlacement>) -> bool {
    &&& blocks.len() > 0
    &&& cell_set(blocks).len() == blocks.len()
    &&& count_kind(blocks, BlockType::CommandCore) >= 1
    &&& count_kind(blocks, BlockType::Engine) >= 1
    &&& total(blocks, Stat::Power) >= 0
    &&& forall|a: Cell, b: Cell|
        cell_set(blocks).contains(a) && cell_set(blocks).contains(b) ==> #[trigger] linked(
            cell_set(blocks),
            a,
            b,
        )
}

/// Outcome of validating a design.
#[derive(Clone, Debug, Default, PartialEq)]
pub struct ValidationReport {
    pub is_valid: bool,
    pub problems: Vec<String>,
}

// ── walks ──────────────────────────────────────────────────────────────────

proof fn lemma_adjacent_symmetric(a: Cell, b: Cell)
    ensures
        adjacent(a, b) == adjacent(b, a),
{
}

/// A walk to `p` extends by one step to a neighbour of `p`.
proof fn lemma_linked_step(cells: Set<Cell>, a: Cell, p: Cell, n: Cell)
    requires
        linked(cells, a, p),
        cells.contains(n),
        adjacent(p, n),
    ensures
        linked(cells, a, n),
{
    let w = choose|w: Seq<Cell>| #[trigger] is_walk(cells, w) && w[0] == a && w.last() == p;
    let w2 = w.push(n);
    assert(is_walk(cells, w2)) by {
        assert forall|i: int| 0 <= i < w2.len() - 1 implies adjacent(#[trigger] w2[i], w2[i + 1]) by {
            if i < w.len() - 1 {
                assert(w2[i] == w[i] && w2[i + 1] == w[i + 1]);
            }
        }
    }
    assert(w2[0] == a && w2.last() == n);
}

/// A single cell is linked to itself.
proof fn lemma_linked_refl(cells: Set<Cell>, a: Cell)
    requires
        cells.contains(a),
    ensures
        linked(cells, a, a),
{
    let w = seq![a];
    assert(is_walk(cells, w));
}

/// Walks run both ways.
proof fn lemma_linked_reverse(cells: Set<Cell>, a: Cell, b: Cell)
    requires
        linked(cells, a, b),
    ensures
        linked(cells, b, a),
{
    let w = choose|w: Seq<Cell>| #[trigger] is_walk(cells, w) && w[0] == a && w.last() == b;
    let r = w.reverse();
    assert(is_walk(cells, r)) by {
        assert forall|i: int| 0 <= i < r.len() implies cells.contains(#[trigger] r[i]) by {
            assert(r[i] == w[w.len() - 1 - i]);
        }
        assert forall|i: int| 0 <= i < r.len() - 1 implies adjacent(#[trigger] r[i], r[i + 1]) by {
            let j = w.len() - 2 - i;
            assert(r[i] == w[j + 1] && r[i + 1] == w[j]);
            assert(adjacent(w[j], w[j + 1]));
            lemma_adjacent_symmetric(w[j], w[j + 1]);
        }
    }
    assert(r[0] == b && r.last() == a);
}

/// Walks compose.
proof fn lemma_linked_trans(cells: Set<Cell>, a: Cell, b: Cell, c: Cell)
    requires
        linked(cells, a, b),
        linked(cells, b, c),
    ensures
        linked(cells, a, c),
{
    let w1 = choose|w: Seq<Cell>| #[trigger] is_walk(cells, w) && w[0] == a && w.last() == b;
    let w2 = choose|w: Seq<Cell>| #[trigger] is_walk(cells, w) && w[0] == b && w.last() == c;
    let w = w1 + w2.drop_first();
    assert(is_walk(cells, w)) by {
        assert forall|i: int| 0 <= i < w.len() implies cells.contains(#[trigger] w[i]) by {
            if i < w1.len() {
                assert(w[i] == w1[i]);
            } else {
                assert(w[i] == w2[i - w1.len() + 1]);
            }
        }
        assert forall|i: int| 0 <= i < w.len() - 1 implies adjacent(#[trigger] w[i], w[i + 1]) by {
            if i < w1.len() - 1 {
                assert(w[i] == w1[i] && w[i + 1] == w1[i + 1]);
            } else if i == w1.len() - 1 {
                assert(w[i] == w2[0]);
                assert(w[i + 1] == w2[1]);
            } else {
                assert(w[i] == w2[i - w1.len() + 1]);
                assert(w[i + 1] == w2[i - w1.len() + 2]);
            }
        }
    }
    if w2.len() == 1 {
        assert(w.last() == w1.last());
    } else {
        assert(w.last() == w2.last());
    }
    assert(w[0] == a);
}

/// Every neighbour (within `cells`) of a member of `seen` is itself in `seen`.
pub open spec fn closed_under(seen: Seq<Cell>, cells: Set<Cell>) -> bool {
    forall|a: Cell, b: Cell|
        #![trigger seen.contains(a), seen.contains(b)]
        seen.contains(a) && cells.contains(b) && adjacent(a, b) ==> seen.contains(b)
}

/// A set of cells that holds `start` and every neighbour (within `cells`) of
/// each of its members holds every cell reachable from `start`.
proof fn lemma_closed_holds_reachable(cells: Set<Cell>, seen: Seq<Cell>, start: Cell, c: Cell)
    requires
        seen.contains(start),
        closed_under(seen, cells),
        linked(cells, start, c),
    ensures
        seen.contains(c),
{
    let w = choose|w: Seq<Cell>| #[trigger] is_walk(cells, w) && w[0] == start && w.last() == c;
    lemma_walk_prefix_in(cells, seen, w, w.len() - 1);
}

proof fn lemma_walk_prefix_in(cells: Set<Cell>, seen: Seq<Cell>, w: Seq<Cell>, k: int)
    requires
        is_walk(cells, w),
        seen.contains(w[0]),
        0 <= k < w.len(),
        closed_under(seen, cells),
    ensures
        seen.contains(w[k]),
    decreases k,
{
    if k > 0 {
        lemma_walk_prefix_in(cells, seen, w, k - 1);
        assert(adjacent(w[k - 1], w[k]));
        assert(cells.contains(w[k]));
    }
}

/// A set of cells that all touch one centre cell (or are it) is connected.
pub proof fn lemma_connected_through(cells: Set<Cell>, center: Cell)
    requires
        cells.contains(center),
        forall|c: Cell| #[trigger] cells.contains(c) ==> c == center || adjacent(center, c),
    ensures
        forall|a: Cell, b: Cell| cells.contains(a) && cells.contains(b) ==> #[trigger] linked(cells, a, b),
{
    lemma_linked_refl(cells, center);
    assert forall|c: Cell| cells.contains(c) implies linked(cells, center, c) by {
        if c != center {
            lemma_linked_step(cells, center, center, c);
        }
    }
    assert forall|a: Cell, b: Cell| cells.contains(a) && cells.contains(b) implies #[trigger] linked(cells, a, b) by {
        lemma_linked_reverse(cells, center, a);
        lemma_linked_trans(cells, a, center, b);
    }
}

// ── counting ───────────────────────────────────────────────────────────────

proof fn lemma_count_kind_take_succ(blocks: Seq<BlockPlacement>, i: int, t: BlockType)
    requires
        0 <= i < blocks.len(),
    ensures
        count_kind(blocks.take(i + 1), t) == count_kind(blocks.take(i), t) + if blocks[i].block_type
            == t {
            1nat
        } else {
            0nat
        },
{
    assert(blocks.take(i + 1).drop_last() =~= blocks.take(i));
}

/// There is a block of kind `t` exactly when its count is positive.
proof fn lemma_count_kind_pos(blocks: Seq<BlockPlacement>, t: BlockType)
    ensures
        (count_kind(blocks, t) >= 1) == (exists|i: int|
            0 <= i < blocks.len() && #[trigger] blocks[i].block_type == t),
    decreases blocks.len(),
{
    if blocks.len() > 0 {
        let d = blocks.drop_last();
        lemma_count_kind_pos(d, t);
        if count_kind(d, t) >= 1 {
            let i = choose|i: int| 0 <= i < d.len() && #[trigger] d[i].block_type == t;
            assert(blocks[i].block_type == t);
        }
        if exists|i: int| 0 <= i < blocks.len() && #[trigger] blocks[i].block_type == t {
            let i = choose|i: int| 0 <= i < blocks.len() && #[trigger] blocks[i].block_type == t;
            if i < blocks.len() - 1 {
                assert(d[i].block_type == t);
            }
        }
    }
}

fn count_of_kind(blocks: &[BlockPlacement], t: BlockType) -> (n: usize)
    ensures
        n == count_kind(blocks@, t),
{
    let mut n: usize = 0;
    let mut i: usize = 0;
    while i < blocks.len()
        invariant
            0 <= i <= blocks@.len(),
            n == count_kind(blocks@.take(i as int), t),
            n <= i,
        decreases blocks@.len() - i,
    {
        proof {
            lemma_count_kind_take_succ(blocks@, i as int, t);
        }
        if blocks[i].block_type == t {
            n = n + 1;
        }
        i = i + 1;
    }
    proof {
        assert(blocks@.take(blocks@.len() as int) =~= blocks@);
    }
    n
}

fn power_total(blocks: &[BlockPlacement]) -> (p: i64)
    requires
        power_fits(blocks@),
    ensures
        p == total(blocks@, Stat::Power),
{
    let mut p: i64 = 0;
    let mut i: usize = 0;
    while i < blocks.len()
        invariant
            0 <= i <= blocks@.len(),
            power_fits(blocks@),
            p == total(blocks@.take(i as int), Stat::Power),
        decreases blocks@.len() - i,
    {
        proof {
            lemma_total_take_succ(blocks@, i as int, Stat::Power);
            assert(i64::MIN <= total(blocks@.take(i + 1), Stat::Power) <= i64::MAX);
        }
        p = p + block_stats(blocks[i].block_type).power;
        i = i + 1;
    }
    proof {
        assert(blocks@.take(blocks@.len() as int) =~= blocks@);
    }
    p
}

// ── cells ──────────────────────────────────────────────────────────────────

fn same_cell(a: Cell, b: Cell) -> (r: bool)
    ensures
        r == (a == b),
{
    a.0 == b.0 && a.1 == b.1 && a.2 == b.2
}

fn has_cell(v: &Vec<Cell>, c: Cell) -> (r: bool)
    ensures
        r == v@.contains(c),
{
    let mut i: usize = 0;
    while i < v.len()
        invariant
            0 <= i <= v@.len(),
            forall|j: int| 0 <= j < i ==> v@[j] != c,
        decreases v@.len() - i,
    {
        if same_cell(v[i], c) {
            return true;
        }
        i = i + 1;
    }
    false
}

/// The distinct cells of a design, in first-occurrence order.
///
/// Cells are kept in a `Vec` whose no-duplicates invariant is proved, and
/// membership is a linear scan: the search is quadratic in the number of
/// blocks, which stays small for a ship design, and keeps every step within
/// what Verus specifies of `Vec`.
fn distinct_cells(blocks: &[BlockPlacement]) -> (cells: Vec<Cell>)
    ensures
        cells@.no_duplicates(),
        cells@.to_set() == cell_set(blocks@),
{
    let mut cells: Vec<Cell> = Vec::new();
    let mut i: usize = 0;
    while i < blocks.len()
        invariant
            0 <= i <= blocks@.len(),
            cells@.no_duplicates(),
            cells@.to_set() == cell_set(blocks@.take(i as int)),
        decreases blocks@.len() - i,
    {
        let b = blocks[i];
        let c: Cell = (b.x, b.y, b.z);
        let ghost before = cells@;
        if !has_cell(&cells, c) {
            cells.push(c);
        }
        proof {
            let prefix = blocks@.take(i + 1);
            assert(prefix.map_values(|b: BlockPlacement| cell_of(b)) =~= blocks@.take(i as int).map_values(
                |b: BlockPlacement| cell_of(b),
            ).push(c));
            assert(cells@.to_set() =~= before.to_set().insert(c)) by {
                if before.contains(c) {
                    assert(cells@ == before);
                    assert(before.to_set().contains(c));
                } else {
                    assert(cells@ == before.push(c));
                    before.lemma_push_to_set_commute(c);
                }
            }
            assert(cells@.to_set() =~= cell_set(prefix)) by {
                assert forall|x: Cell| cells@.to_set().contains(x) == cell_set(prefix).contains(x) by {
                    let old_ms = blocks@.take(i as int).map_values(|b: BlockPlacement| cell_of(b));
                    let new_ms = prefix.map_values(|b: BlockPlacement| cell_of(b));
                    if cell_set(prefix).contains(x) {
                        let k = choose|k: int| 0 <= k < new_ms.len() && new_ms[k] == x;
                        if k < old_ms.len() {
                            assert(old_ms[k] == x);
                            assert(old_ms.to_set().contains(x));
                        }
                    }
                    if before.to_set().contains(x) {
                        assert(old_ms.to_set().contains(x));
                        let k = choose|k: int| 0 <= k < old_ms.len() && old_ms[k] == x;
                        assert(new_ms[k] == x);
                    }
                    if x == c {
                        assert(new_ms[i as int] == x);
                    }
                }
            }
        }
        i = i + 1;
    }
    proof {
        assert(blocks@.take(blocks@.len() as int) =~= blocks@);
    }
    cells
}

// ── connectivity ───────────────────────────────────────────────────────────

/// The BFS frontier invariant: `seen` holds distinct cells of `cells`, each
/// reachable from `start`, and at most as many as `cells` has.
pub open spec fn frontier_ok(cells: Seq<Cell>, seen: Seq<Cell>, start: Cell) -> bool {
    &&& seen.no_duplicates()
    &&& seen.len() > 0
    &&& seen[0] == start
    &&& seen.len() <= cells.len()
    &&& forall|i: int| 0 <= i < seen.len() ==> cells.to_set().contains(#[trigger] seen[i])
    &&& forall|i: int| 0 <= i < seen.len() ==> linked(cells.to_set(), start, #[trigger] seen[i])
}

/// Adds `n` to `seen` when it is one of `cells` not yet seen.
fn visit(cells: &Vec<Cell>, seen: &mut Vec<Cell>, n: Cell, Ghost(start): Ghost<Cell>, Ghost(from): Ghost<Cell>)
    requires
        cells@.no_duplicates(),
        frontier_ok(cells@, old(seen)@, start),
        linked(cells@.to_set(), start, from),
        adjacent(from, n),
    ensures
        frontier_ok(cells@, final(seen)@, start),
        old(seen)@.is_prefix_of(final(seen)@),
        cells@.contains(n) ==> final(seen)@.contains(n),
{
    if has_cell(cells, n) && !has_cell(seen, n) {
        let ghost before = seen@;
        seen.push(n);
        proof {
            assert(seen@[seen@.len() - 1] == n);
            assert(cells@.to_set().contains(n));
            lemma_linked_step(cells@.to_set(), start, from, n);
            assert(seen@.no_duplicates());
            assert(seen@.to_set().subset_of(cells@.to_set())) by {
                assert forall|x: Cell| seen@.to_set().contains(x) implies cells@.to_set().contains(x) by {
                    let k = choose|k: int| 0 <= k < seen@.len() && seen@[k] == x;
                    assert(cells@.to_set().contains(seen@[k]));
                }
            }
            seen@.unique_seq_to_set();
            cells@.unique_seq_to_set();
            lemma_len_subset(seen@.to_set(), cells@.to_set());
            assert forall|i: int| 0 <= i < seen@.len() implies linked(cells@.to_set(), start, #[trigger] seen@[i]) by {
                if i < before.len() {
                    assert(seen@[i] == before[i]);
                }
            }
            assert forall|i: int| 0 <= i < seen@.len() implies cells@.to_set().contains(#[trigger] seen@[i]) by {
                if i < before.len() {
                    assert(seen@[i] == before[i]);
                }
            }
        }
    }
}

/// The number of distinct cells that no walk joins to the first command core.
fn count_disconnected(blocks: &[BlockPlacement], cells: &Vec<Cell>) -> (d: usize)
    requires
        cells@.no_duplicates(),
        cells@.to_set() == cell_set(blocks@),
    ensures
        d == detached_count(blocks@),
{
    // Find the first command core.
    let mut k: usize = 0;
    while k < blocks.len() && blocks[k].block_type != BlockType::CommandCore
        invariant
            0 <= k <= blocks@.len(),
            forall|j: int| 0 <= j < k ==> blocks@[j].block_type != BlockType::CommandCore,
        decreases blocks@.len() - k,
    {
        k = k + 1;
    }
    proof {
        lemma_count_kind_pos(blocks@, BlockType::CommandCore);
    }
    if k == blocks.len() {
        return 0;
    }
    let start: Cell = (blocks[k].x, blocks[k].y, blocks[k].z);
    let ghost cs = cells@.to_set();
    proof {
        assert(is_first_core(blocks@, k as int));
        let c = choose|i: int| is_first_core(blocks@, i);
        assert(c == k);
        assert(core_start(blocks@) == start);
        let ms = blocks@.map_values(|b: BlockPlacement| cell_of(b));
        assert(ms[k as int] == start);
        assert(cs.contains(start));
        lemma_linked_refl(cs, start);
        assert(cells@.contains(start));
        let kk = choose|kk: int| 0 <= kk < cells@.len() && cells@[kk] == start;
        cells@.unique_seq_to_set();
        assert(cells@.len() >= 1);
    }
    let mut seen: Vec<Cell> = Vec::new();
    seen.push(start);
    let mut head: usize = 0;
    while head < seen.len()
        invariant
            cells@.no_duplicates(),
            cs == cells@.to_set(),
            frontier_ok(cells@, seen@, start),
            0 <= head <= seen@.len(),
            forall|i: int, c: Cell|
                #![trigger seen@[i], seen@.contains(c)]
                0 <= i < head && cs.contains(c) && adjacent(seen@[i], c) ==> seen@.contains(c),
        decreases 2 * cells@.len() - head - seen@.len(),
    {
        let p = seen[head];
        let ghost before = seen@;
        proof {
            assert(linked(cs, start, p));
        }
        if p.0 < i32::MAX {
            visit(cells, &mut seen, (p.0 + 1, p.1, p.2), Ghost(start), Ghost(p));
        }
        if p.0 > i32::MIN {
            visit(cells, &mut seen, (p.0 - 1, p.1, p.2), Ghost(start), Ghost(p));
        }
        if p.1 < i32::MAX {
            visit(cells, &mut seen, (p.0, p.1 + 1, p.2), Ghost(start), Ghost(p));
        }
        if p.1 > i32::MIN {
            visit(cells, &mut seen, (p.0, p.1 - 1, p.2), Ghost(start), Ghost(p));
        }
        if p.2 < i32::MAX {
            visit(cells, &mut seen, (p.0, p.1, p.2 + 1), Ghost(start), Ghost(p));
        }
        if p.2 > i32::MIN {
            visit(cells, &mut seen, (p.0, p.1, p.2 - 1), Ghost(start), Ghost(p));
        }
        proof {
            assert(before.is_prefix_of(seen@));
            assert forall|i: int, c: Cell|
                #![trigger seen@[i], seen@.contains(c)]
                0 <= i < head + 1 && cs.contains(c) && adjacent(seen@[i], c) implies seen@.contains(c) by {
                if i < head {
                    assert(seen@[i] == before[i]);
                    assert(before.contains(c));
                    let j = choose|j: int| 0 <= j < before.len() && before[j] == c;
                    assert(seen@[j] == c);
                } else {
                    assert(seen@[i] == p);
                    assert(cells@.contains(c));
                }
            }
        }
        head = head + 1;
    }
    proof {
        let r = reachable_set(cs, start);
        assert forall|a: Cell, b: Cell|
            #![trigger seen@.contains(a), seen@.contains(b)]
            seen@.contains(a) && cs.contains(b) && adjacent(a, b) implies seen@.contains(b) by {
            let i = choose|i: int| 0 <= i < seen@.len() && seen@[i] == a;
            assert(adjacent(seen@[i], b));
        }
        assert(seen@[0] == start);
        assert(seen@.contains(start));
        assert(seen@.to_set() =~= r) by {
            assert forall|c: Cell| seen@.to_set().contains(c) == r.contains(c) by {
                if seen@.to_set().contains(c) {
                    let i = choose|i: int| 0 <= i < seen@.len() && seen@[i] == c;
                    assert(linked(cs, start, seen@[i]));
                    assert(cs.contains(seen@[i]));
                }
                if r.contains(c) {
                    lemma_closed_holds_reachable(cs, seen@, start, c);
                }
            }
        }
        seen@.unique_seq_to_set();
        cells@.unique_seq_to_set();
    }
    cells.len() - seen.len()
}


// ── validity ───────────────────────────────────────────────────────────────

/// A design with a command core has a first one.
proof fn lemma_first_core_exists(blocks: Seq<BlockPlacement>)
    requires
        count_kind(blocks, BlockType::CommandCore) >= 1,
    ensures
        exists|i: int| is_first_core(blocks, i),
    decreases blocks.len(),
{
    let d = blocks.drop_last();
    lemma_count_kind_pos(blocks, BlockType::CommandCore);
    lemma_count_kind_pos(d, BlockType::CommandCore);
    if count_kind(d, BlockType::CommandCore) >= 1 {
        lemma_first_core_exists(d);
        let i = choose|i: int| is_first_core(d, i);
        assert(blocks[i] == d[i]);
        assert forall|j: int| 0 <= j < i implies blocks[j].block_type != BlockType::CommandCore by {
            assert(blocks[j] == d[j]);
        }
        assert(is_first_core(blocks, i));
    } else {
        let i = blocks.len() - 1;
        assert(blocks.last().block_type == BlockType::CommandCore);
        assert(blocks[i] == blocks.last());
        assert forall|j: int| 0 <= j < i implies blocks[j].block_type != BlockType::CommandCore by {
            assert(blocks[j] == d[j]);
            if d[j].block_type == BlockType::CommandCore {
                assert(exists|k: int| 0 <= k < d.len() && #[trigger] d[k].block_type == BlockType::CommandCore);
            }
        }
        assert(is_first_core(blocks, i));
    }
}

/// The first command core sits in one of the design's cells.
proof fn lemma_core_start_in_cells(blocks: Seq<BlockPlacement>)
    requires
        count_kind(blocks, BlockType::CommandCore) >= 1,
    ensures
        cell_set(blocks).contains(core_start(blocks)),
{
    lemma_first_core_exists(blocks);
    let i = choose|i: int| is_first_core(blocks, i);
    let ms = blocks.map_values(|b: BlockPlacement| cell_of(b));
    assert(ms[i] == core_start(blocks));
}

/// With a command core, no cell is detached exactly when every two cells are linked.
proof fn lemma_detached_zero_iff_connected(blocks: Seq<BlockPlacement>)
    requires
        count_kind(blocks, BlockType::CommandCore) >= 1,
    ensures
        detached_count(blocks) >= 0,
        (detached_count(blocks) == 0) == (forall|a: Cell, b: Cell|
            cell_set(blocks).contains(a) && cell_set(blocks).contains(b) ==> #[trigger] linked(
                cell_set(blocks),
                a,
                b,
            )),
{
    let cs = cell_set(blocks);
    let start = core_start(blocks);
    let r = reachable_set(cs, start);
    lemma_core_start_in_cells(blocks);
    assert(r.subset_of(cs));
    lemma_len_subset(r, cs);
    if detached_count(blocks) == 0 {
        lemma_subset_equality(r, cs);
        assert forall|a: Cell, b: Cell|
            cs.contains(a) && cs.contains(b) implies #[trigger] linked(cs, a, b) by {
            assert(r.contains(a) && r.contains(b));
            lemma_linked_reverse(cs, start, a);
            lemma_linked_trans(cs, a, start, b);
        }
    }
    if forall|a: Cell, b: Cell|
        cs.contains(a) && cs.contains(b) ==> #[trigger] linked(cs, a, b) {
        assert(r =~= cs) by {
            assert forall|c: Cell| cs.contains(c) implies r.contains(c) by {
                assert(linked(cs, start, c));
            }
        }
    }
}

/// `validate` reports no problem exactly for a valid design.
proof fn lemma_no_problems_iff_valid(blocks: Seq<BlockPlacement>)
    ensures
        (expected_problems(blocks).len() == 0) == design_is_valid(blocks),
{
    if blocks.len() > 0 {
        let cores = count_kind(blocks, BlockType::CommandCore);
        if cores >= 1 {
            lemma_detached_zero_iff_connected(blocks);
        }
    }
}

// ── order independence ───────────────────────────────────────────────────

proof fn lemma_count_kind_remove(s: Seq<BlockPlacement>, j: int, t: BlockType)
    requires
        0 <= j < s.len(),
    ensures
        count_kind(s, t) == count_kind(s.remove(j), t) + if s[j].block_type == t {
            1nat
        } else {
            0nat
        },
    decreases s.len(),
{
    if j == s.len() - 1 {
        assert(s.remove(j) =~= s.drop_last());
    } else {
        let d = s.drop_last();
        lemma_count_kind_remove(d, j, t);
        assert(s.remove(j).drop_last() =~= d.remove(j));
        assert(s.remove(j).last() == s.last());
    }
}

proof fn lemma_count_kind_order_independent(a: Seq<BlockPlacement>, b: Seq<BlockPlacement>, t: BlockType)
    requires
        a.to_multiset() == b.to_multiset(),
    ensures
        count_kind(a, t) == count_kind(b, t),
    decreases a.len(),
{
    broadcast use {vstd::seq_lib::group_to_multiset_ensures, vstd::multiset::group_multiset_axioms};

    assert(a.to_multiset().len() == a.len());
    assert(b.to_multiset().len() == b.len());
    if a.len() > 0 {
        let x = a.last();
        assert(a =~= a.drop_last().push(x));
        assert(a.to_multiset().count(x) > 0);
        assert(b.contains(x));
        let j = choose|j: int| 0 <= j < b.len() && b[j] == x;
        lemma_count_kind_remove(b, j, t);
        assert(b.remove(j).to_multiset() =~= b.to_multiset().remove(x));
        assert(a.drop_last().to_multiset() =~= a.to_multiset().remove(x));
        lemma_count_kind_order_independent(a.drop_last(), b.remove(j), t);
    }
}

proof fn lemma_cell_set_order_independent(a: Seq<BlockPlacement>, b: Seq<BlockPlacement>)
    requires
        a.to_multiset() == b.to_multiset(),
    ensures
        cell_set(a) == cell_set(b),
{
    broadcast use {vstd::seq_lib::group_to_multiset_ensures, vstd::multiset::group_multiset_axioms};

    let ma = a.map_values(|x: BlockPlacement| cell_of(x));
    let mb = b.map_values(|x: BlockPlacement| cell_of(x));
    assert forall|c: Cell| cell_set(a).contains(c) implies cell_set(b).contains(c) by {
        let i = choose|i: int| 0 <= i < ma.len() && ma[i] == c;
        assert(a.contains(a[i]));
        assert(b.to_multiset().count(a[i]) > 0);
        let j = choose|j: int| 0 <= j < b.len() && b[j] == a[i];
        assert(mb[j] == c);
    }
    assert forall|c: Cell| cell_set(b).contains(c) implies cell_set(a).contains(c) by {
        let i = choose|i: int| 0 <= i < mb.len() && mb[i] == c;
        assert(b.contains(b[i]));
        assert(a.to_multiset().count(b[i]) > 0);
        let j = choose|j: int| 0 <= j < a.len() && a[j] == b[i];
        assert(ma[j] == c);
    }
    assert(cell_set(a) =~= cell_set(b));
}

/// Validity does not depend on the order in which the blocks are listed:
/// any reordering of a design is valid exactly when the design is.
pub proof fn lemma_validity_order_independent(a: Seq<BlockPlacement>, b: Seq<BlockPlacement>)
    requires
        a.to_multiset() == b.to_multiset(),
    ensures
        design_is_valid(a) == design_is_valid(b),
{
    broadcast use vstd::seq_lib::group_to_multiset_ensures;

    assert(a.to_multiset().len() == a.len());
    assert(b.to_multiset().len() == b.len());
    lemma_cell_set_order_independent(a, b);
    lemma_count_kind_order_independent(a, b, BlockType::CommandCore);
    lemma_count_kind_order_independent(a, b, BlockType::Engine);
    lemma_total_order_independent(a, b, Stat::Power);
}

// ── the stats of a design, counted by kind ────────────────────────────────

/// The blocks of a design are split among the six kinds.
proof fn lemma_kinds_cover(blocks: Seq<BlockPlacement>)
    ensures
        blocks.len() == count_kind(blocks, BlockType::Hull) + count_kind(blocks, BlockType::Engine)
            + count_kind(blocks, BlockType::Weapon) + count_kind(blocks, BlockType::Reactor)
            + count_kind(blocks, BlockType::Sensor) + count_kind(blocks, BlockType::CommandCore),
    decreases blocks.len(),
{
    if blocks.len() > 0 {
        lemma_kinds_cover(blocks.drop_last());
    }
}

/// Thrust counted by kind.
proof fn lemma_thrust_by_kind(blocks: Seq<BlockPlacement>)
    ensures
        total(blocks, Stat::Thrust) == 10 * count_kind(blocks, BlockType::Engine),
    decreases blocks.len(),
{
    if blocks.len() > 0 {
        lemma_thrust_by_kind(blocks.drop_last());
    }
}

/// Attack counted by kind.
proof fn lemma_attack_by_kind(blocks: Seq<BlockPlacement>)
    ensures
        total(blocks, Stat::Attack) == 10 * count_kind(blocks, BlockType::Weapon),
    decreases blocks.len(),
{
    if blocks.len() > 0 {
        lemma_attack_by_kind(blocks.drop_last());
    }
}

/// Power counted by kind.
proof fn lemma_power_by_kind(blocks: Seq<BlockPlacement>)
    ensures
        total(blocks, Stat::Power) == 20 * count_kind(blocks, BlockType::Reactor) - 5 * count_kind(blocks, BlockType::Engine) - 8 * count_kind(blocks, BlockType::Weapon) - 2 * count_kind(blocks, BlockType::Sensor) - 3 * count_kind(blocks, BlockType::CommandCore),
    decreases blocks.len(),
{
    if blocks.len() > 0 {
        lemma_power_by_kind(blocks.drop_last());
    }
}

/// Mass (in halves) counted by kind.
proof fn lemma_mass_by_kind(blocks: Seq<BlockPlacement>)
    ensures
        total(blocks, Stat::MassHalves) == 2 * count_kind(blocks, BlockType::Hull) + 4 * count_kind(blocks, BlockType::Engine) + 3 * count_kind(blocks, BlockType::Weapon) + 6 * count_kind(blocks, BlockType::Reactor) + count_kind(blocks, BlockType::Sensor) + 4 * count_kind(blocks, BlockType::CommandCore),
    decreases blocks.len(),
{
    if blocks.len() > 0 {
        lemma_mass_by_kind(blocks.drop_last());
    }
}

/// Cost counted by kind.
proof fn lemma_cost_by_kind(blocks: Seq<BlockPlacement>)
    ensures
        total(blocks, Stat::Cost) == 10 * count_kind(blocks, BlockType::Hull) + 25 * count_kind(blocks, BlockType::Engine) + 40 * count_kind(blocks, BlockType::Weapon) + 50 * count_kind(blocks, BlockType::Reactor) + 20 * count_kind(blocks, BlockType::Sensor) + 100 * count_kind(blocks, BlockType::CommandCore),
    decreases blocks.len(),
{
    if blocks.len() > 0 {
        lemma_cost_by_kind(blocks.drop_last());
    }
}

/// Hull points counted by kind.
proof fn lemma_hp_by_kind(blocks: Seq<BlockPlacement>)
    ensures
        total(blocks, Stat::Hp) == 50 * count_kind(blocks, BlockType::Hull) + 20 * count_kind(blocks, BlockType::Engine) + 20 * count_kind(blocks, BlockType::Weapon) + 30 * count_kind(blocks, BlockType::Reactor) + 10 * count_kind(blocks, BlockType::Sensor) + 100 * count_kind(blocks, BlockType::CommandCore),
    decreases blocks.len(),
{
    if blocks.len() > 0 {
        lemma_hp_by_kind(blocks.drop_last());
    }
}

/// A design's stat totals depend only on how many blocks of each kind it has:
/// thrust is 10 per engine, attack 10 per weapon, power +20 per reactor and
/// -5, -8, -2, -3 per engine, weapon, sensor and command core; mass (in
/// halves), cost and hull points add up the same way.
pub proof fn lemma_totals_by_kind(blocks: Seq<BlockPlacement>)
    ensures
        blocks.len() == count_kind(blocks, BlockType::Hull) + count_kind(blocks, BlockType::Engine)
            + count_kind(blocks, BlockType::Weapon) + count_kind(blocks, BlockType::Reactor)
            + count_kind(blocks, BlockType::Sensor) + count_kind(blocks, BlockType::CommandCore),
        total(blocks, Stat::Thrust) == 10 * count_kind(blocks, BlockType::Engine),
        total(blocks, Stat::Attack) == 10 * count_kind(blocks, BlockType::Weapon),
        total(blocks, Stat::Power) == 20 * count_kind(blocks, BlockType::Reactor)
            - 5 * count_kind(blocks, BlockType::Engine) - 8 * count_kind(blocks, BlockType::Weapon)
            - 2 * count_kind(blocks, BlockType::Sensor) - 3 * count_kind(blocks, BlockType::CommandCore),
        total(blocks, Stat::MassHalves) == 2 * count_kind(blocks, BlockType::Hull)
            + 4 * count_kind(blocks, BlockType::Engine) + 3 * count_kind(blocks, BlockType::Weapon)
            + 6 * count_kind(blocks, BlockType::Reactor) + 1 * count_kind(blocks, BlockType::Sensor)
            + 4 * count_kind(blocks, BlockType::CommandCore),
        total(blocks, Stat::Cost) == 10 * count_kind(blocks, BlockType::Hull)
            + 25 * count_kind(blocks, BlockType::Engine) + 40 * count_kind(blocks, BlockType::Weapon)
            + 50 * count_kind(blocks, BlockType::Reactor) + 20 * count_kind(blocks, BlockType::Sensor)
            + 100 * count_kind(blocks, BlockType::CommandCore),
        total(blocks, Stat::Hp) == 50 * count_kind(blocks, BlockType::Hull)
            + 20 * count_kind(blocks, BlockType::Engine) + 20 * count_kind(blocks, BlockType::Weapon)
            + 30 * count_kind(blocks, BlockType::Reactor) + 10 * count_kind(blocks, BlockType::Sensor)
            + 100 * count_kind(blocks, BlockType::CommandCore),
{
    lemma_kinds_cover(blocks);
    lemma_thrust_by_kind(blocks);
    lemma_attack_by_kind(blocks);
    lemma_power_by_kind(blocks);
    lemma_mass_by_kind(blocks);
    lemma_cost_by_kind(blocks);
    lemma_hp_by_kind(blocks);
}

/// Without a reactor nothing produces power: the balance is never positive,
/// it is negative as soon as any block other than a hull is present, and so
/// no design without a reactor is valid (a valid design has a command core).
pub proof fn lemma_no_reactor_no_power(blocks: Seq<BlockPlacement>)
    requires
        count_kind(blocks, BlockType::Reactor) == 0,
    ensures
        total(blocks, Stat::Power) <= 0,
        count_kind(blocks, BlockType::Hull) < blocks.len() ==> total(blocks, Stat::Power) < 0,
        !design_is_valid(blocks),
{
    lemma_totals_by_kind(blocks);
}

/// In a valid design of more than one block, every block shares a face with
/// some other block: no block floats on its own.
pub proof fn lemma_valid_blocks_touch(blocks: Seq<BlockPlacement>, i: int)
    requires
        design_is_valid(blocks),
        blocks.len() > 1,
        0 <= i < blocks.len(),
    ensures
        exists|j: int|
            0 <= j < blocks.len() && j != i && adjacent(cell_of(blocks[i]), #[trigger] cell_of(blocks[j])),
{
    let cells = blocks.map_values(|b: BlockPlacement| cell_of(b));
    let ci = cell_of(blocks[i]);
    assert(cells[i] == ci);
    assert(cell_set(blocks).contains(ci));
    if forall|k: int| 0 <= k < blocks.len() ==> cell_of(#[trigger] blocks[k]) == ci {
        assert(cell_set(blocks) =~= set![ci]) by {
            assert forall|c: Cell| #[trigger] cell_set(blocks).contains(c) implies c == ci by {
                let k = choose|k: int| 0 <= k < cells.len() && cells[k] == c;
                assert(cell_of(blocks[k]) == ci);
            }
        }
        assert(set![ci].len() == 1);
        assert(false);
    }
    let k = choose|k: int| 0 <= k < blocks.len() && cell_of(#[trigger] blocks[k]) != ci;
    let ck = cell_of(blocks[k]);
    assert(cells[k] == ck);
    assert(cell_set(blocks).contains(ck));
    assert(linked(cell_set(blocks), ci, ck));
    let w = choose|w: Seq<Cell>| #[trigger] is_walk(cell_set(blocks), w) && w[0] == ci && w.last() == ck;
    assert(w.len() >= 2);
    assert(adjacent(w[0], w[1]));
    assert(cell_set(blocks).contains(w[1]));
    let j = choose|j: int| 0 <= j < cells.len() && cells[j] == w[1];
    assert(cell_of(blocks[j]) == w[1]);
    assert(j != i);
}

// ── the report ─────────────────────────────────────────────────────────────

/// Check a design: non-empty, no shared cells, at least one command core and
/// one engine, power balance not negative, and every block connected to the
/// command core. Problems are reported in that order.
pub fn validate(blocks: &[BlockPlacement]) -> (r: ValidationReport)
    requires
        power_fits(blocks@),
    ensures
        texts(r.problems@) == expected_problems(blocks@),
        r.is_valid == (r.problems@.len() == 0),
        r.is_valid == design_is_valid(blocks@),
        count_kind(blocks@, BlockType::Reactor) == 0 ==> !r.is_valid,
{
    proof {
        if count_kind(blocks@, BlockType::Reactor) == 0 {
            lemma_no_reactor_no_power(blocks@);
        }
    }
    let mut problems: Vec<String> = Vec::new();
    if blocks.len() == 0 {
        problems.push(String::from_str("design is empty"));
        proof {
            assert(texts(problems@) =~= expected_problems(blocks@));
        }
        proof {
            lemma_no_problems_iff_valid(blocks@);
        }
        return ValidationReport { is_valid: false, problems };
    }
    let ghost cores_spec = count_kind(blocks@, BlockType::CommandCore);
    let ghost power_spec = total(blocks@, Stat::Power);
    let cells = distinct_cells(blocks);
    proof {
        cells@.unique_seq_to_set();
    }
    if cells.len() != blocks.len() {
        problems.push(String::from_str("two or more blocks occupy the same cell"));
    }
    proof {
        assert(texts(problems@) =~= msg_if(cell_set(blocks@).len() != blocks@.len(), msg_overlap()));
    }
    let ghost t1 = texts(problems@);
    let command_cores = count_of_kind(blocks, BlockType::CommandCore);
    let engines = count_of_kind(blocks, BlockType::Engine);
    if command_cores < 1 {
        problems.push(String::from_str("needs at least 1 command core"));
    }
    proof {
        assert(texts(problems@) =~= t1 + msg_if(cores_spec < 1, msg_no_core()));
    }
    let ghost t2 = texts(problems@);
    if engines < 1 {
        problems.push(String::from_str("needs at least 1 engine"));
    }
    proof {
        assert(texts(problems@) =~= t2 + msg_if(
            count_kind(blocks@, BlockType::Engine) < 1,
            msg_no_engine(),
        ));
    }
    let ghost t3 = texts(problems@);
    let power = power_total(blocks);
    if power < 0 {
        let net = decimal_string(power as i128);
        let m = String::from_str("insufficient power: net ").concat(net.as_str()).concat(
            " (add a reactor)",
        );
        problems.push(m);
    }
    proof {
        assert(texts(problems@) =~= t3 + msg_if(power_spec < 0, msg_power(power_spec)));
    }
    let ghost t4 = texts(problems@);
    if command_cores >= 1 {
        let detached = count_disconnected(blocks, &cells);
        if detached > 0 {
            let n = decimal_string(detached as i128);
            let m = n.concat(" block(s) are not connected to the command core");
            problems.push(m);
        }
    }
    proof {
        assert(texts(problems@) =~= t4 + msg_if(
            cores_spec >= 1 && detached_count(blocks@) > 0,
            msg_detached(detached_count(blocks@)),
        ));
        assert(texts(problems@) =~= expected_problems(blocks@));
        lemma_no_problems_iff_valid(blocks@);
    }
    let is_valid = problems.len() == 0;
    ValidationReport { is_valid, problems }
}

} // verus!
