//! One resident's levelling or paving task: the square of columns it covers, and
//! the block changes that bring one column, or the next batch of columns, to the
//! target height.
//!
//! The world is read through plain values: a column is given as the block at each
//! height from 0 upward together with whether that block is solid, and heights
//! outside it read as air.

use vstd::prelude::*;
use crate::voxel::Block;
use crate::voxel_directed_task::{QuarryDig, LEVEL_COLUMNS_PER_STEP, LEVEL_MAX_UP, LEVEL_MAX_DOWN};

verus! {

/// A levelling task given to one resident: centre, radius and target height of the
/// square, the next column to handle, and for a paving task its material and the
/// quarry it is digging for stone. The countdown that abandons a stalled task is kept
/// by the caller, which keeps time.
#[derive(Debug, PartialEq)]
pub struct DirectedTask {
    pub assignee: String,
    pub requester: String,
    pub cx: i32,
    pub cz: i32,
    pub radius: i32,
    pub target_y: i32,
    pub cursor: usize,
    pub pave: Option<Block>,
    pub quarry: Option<QuarryDig>,
    pub wells_dug: u32,
    pub prov_seen: u32,
}

/// The side of the square of a radius: 2r+1, and at least 1.
pub open spec fn side_of(radius: int) -> int {
    if 2 * radius + 1 >= 1 {
        2 * radius + 1
    } else {
        1
    }
}

impl DirectedTask {
    /// The side of the task's square.
    pub open spec fn side_len(&self) -> int {
        side_of(self.radius as int)
    }

    /// The number of columns of the task.
    pub open spec fn column_count(&self) -> int {
        self.side_len() * self.side_len()
    }

    /// The world column (x, z) of column `idx`, row by row.
    pub open spec fn column(&self, idx: int) -> (int, int) {
        (self.cx - self.radius + idx / self.side_len(), self.cz - self.radius + idx % self.side_len())
    }

    /// The column number of the cell (x, z) of the square.
    pub open spec fn square_index(&self, x: int, z: int) -> int {
        (x - (self.cx - self.radius)) * self.side_len() + (z - (self.cz - self.radius))
    }

    /// The radius keeps `2r+1` in range.
    pub open spec fn radius_ok(&self) -> bool {
        -0x4000_0000 <= self.radius < 0x4000_0000
    }

    /// A new levelling task: nothing handled yet, no material, no quarry.
    pub fn new(assignee: String, requester: String, cx: i32, cz: i32, radius: i32, target_y: i32) -> (t: Self)
        ensures
            t.assignee == assignee,
            t.requester == requester,
            t.cx == cx,
            t.cz == cz,
            t.radius == radius,
            t.target_y == target_y,
            t.cursor == 0,
            t.pave == None::<Block>,
            t.quarry == None::<QuarryDig>,
            t.wells_dug == 0,
            t.prov_seen == 0,
    {
        DirectedTask {
            assignee,
            requester,
            cx,
            cz,
            radius,
            target_y,
            cursor: 0,
            pave: None,
            quarry: None,
            wells_dug: 0,
            prov_seen: 0,
        }
    }

    /// A new paving task with material `mat`: the same square, topped with `mat`.
    pub fn new_pave(
        assignee: String,
        requester: String,
        cx: i32,
        cz: i32,
        radius: i32,
        target_y: i32,
        mat: Block,
    ) -> (t: Self)
        ensures
            t.assignee == assignee,
            t.requester == requester,
            t.cx == cx,
            t.cz == cz,
            t.radius == radius,
            t.target_y == target_y,
            t.cursor == 0,
            t.pave == Some(mat),
            t.quarry == None::<QuarryDig>,
            t.wells_dug == 0,
            t.prov_seen == 0,
    {
        let mut t = Self::new(assignee, requester, cx, cz, radius, target_y);
        t.pave = Some(mat);
        t
    }

    fn side(&self) -> (s: usize)
        requires
            self.radius_ok(),
        ensures
            s as int == self.side_len(),
    {
        let s = self.radius * 2 + 1;
        if s >= 1 {
            s as usize
        } else {
            1
        }
    }

    /// The number of columns: the side squared.
    pub fn total_columns(&self) -> (n: usize)
        requires
            self.radius_ok(),
            self.column_count() <= usize::MAX,
        ensures
            n as int == self.column_count(),
    {
        let s = self.side();
        s * s
    }

    /// Whether every column has been handled.
    pub fn is_complete(&self) -> (b: bool)
        requires
            self.radius_ok(),
            self.column_count() <= usize::MAX,
        ensures
            b == (self.cursor >= self.column_count()),
    {
        self.cursor >= self.total_columns()
    }

    /// The share of columns handled, in percent, rounded down (at most 100).
    pub fn progress_pct(&self) -> (p: u8)
        requires
            self.radius_ok(),
            self.column_count() * 100 <= usize::MAX,
        ensures
            p as int == (if self.cursor < self.column_count() { self.cursor as int } else { self.column_count() })
                * 100 / self.column_count(),
            p <= 100,
    {
        proof {
            assert(self.side_len() >= 1);
            assert(self.column_count() >= 1) by (nonlinear_arith)
                requires
                    self.column_count() == self.side_len() * self.side_len(),
                    self.side_len() >= 1,
            ;
        }
        let total = self.total_columns();
        let done = if self.cursor < total {
            self.cursor
        } else {
            total
        };
        proof {
            assert(done * 100 / (total as int) <= 100) by (nonlinear_arith)
                requires
                    done <= total,
                    total >= 1,
            ;
        }
        (done * 100 / total) as u8
    }

    /// The world column of column `idx` (`idx` below the number of columns), row by row.
    pub fn column_at(&self, idx: usize) -> (c: (i32, i32))
        requires
            self.radius_ok(),
            self.column_count() <= usize::MAX,
            idx < self.column_count(),
            i32::MIN <= self.cx - self.radius,
            self.cx - self.radius + self.side_len() - 1 <= i32::MAX,
            i32::MIN <= self.cz - self.radius,
            self.cz - self.radius + self.side_len() - 1 <= i32::MAX,
        ensures
            c.0 as int == self.column(idx as int).0,
            c.1 as int == self.column(idx as int).1,
    {
        let s = self.side();
        proof {
            lemma_div_mod_below(idx as int, s as int);
        }
        let dx = (idx / s) as i32;
        let dz = (idx % s) as i32;
        (self.cx - self.radius + dx, self.cz - self.radius + dz)
    }
}

proof fn lemma_div_mod_below(i: int, s: int)
    requires
        s >= 1,
        0 <= i < s * s,
    ensures
        0 <= i / s < s,
        0 <= i % s < s,
        i == s * (i / s) + i % s,
{
    vstd::arithmetic::div_mod::lemma_fundamental_div_mod(i, s);
    assert(0 <= i / s) by (nonlinear_arith)
        requires
            s >= 1,
            0 <= i,
    ;
    assert(i / s < s) by (nonlinear_arith)
        requires
            s >= 1,
            0 <= i < s * s,
            i == s * (i / s) + i % s,
            0 <= i % s < s,
    ;
}

/// The columns of a task with a non-negative radius are exactly the cells of its
/// square, each once: column `i` lies in the square, two columns differ, and every
/// cell of the square is some column.
pub proof fn lemma_columns_cover_square(t: DirectedTask)
    requires
        t.radius >= 0,
    ensures
        forall|i: int|
            0 <= i < t.column_count() ==> {
                let (x, z) = #[trigger] t.column(i);
                t.cx - t.radius <= x <= t.cx + t.radius && t.cz - t.radius <= z <= t.cz + t.radius
            },
        forall|i: int, j: int|
            0 <= i < j < t.column_count() ==> #[trigger] t.column(i) != #[trigger] t.column(j),
        forall|x: int, z: int|
            t.cx - t.radius <= x <= t.cx + t.radius && t.cz - t.radius <= z <= t.cz + t.radius ==> {
                &&& 0 <= #[trigger] t.square_index(x, z) < t.column_count()
                &&& t.column(t.square_index(x, z)) == (x, z)
            },
{
    let s = t.side_len();
    assert(s == 2 * t.radius + 1);
    assert forall|i: int| 0 <= i < t.column_count() implies {
        let (x, z) = #[trigger] t.column(i);
        t.cx - t.radius <= x <= t.cx + t.radius && t.cz - t.radius <= z <= t.cz + t.radius
    } by {
        lemma_div_mod_below(i, s);
    }
    assert forall|i: int, j: int| 0 <= i < j < t.column_count() implies #[trigger] t.column(i)
        != #[trigger] t.column(j) by {
        lemma_div_mod_below(i, s);
        lemma_div_mod_below(j, s);
    }
    assert forall|x: int, z: int|
        t.cx - t.radius <= x <= t.cx + t.radius && t.cz - t.radius <= z <= t.cz + t.radius implies {
            &&& 0 <= #[trigger] t.square_index(x, z) < t.column_count()
            &&& t.column(t.square_index(x, z)) == (x, z)
        } by {
        let a = x - (t.cx - t.radius);
        let b = z - (t.cz - t.radius);
        let i = a * s + b;
        assert(0 <= a < s && 0 <= b < s);
        assert(0 <= i < s * s) by (nonlinear_arith)
            requires
                0 <= a < s,
                0 <= b < s,
                i == a * s + b,
        ;
        vstd::arithmetic::div_mod::lemma_fundamental_div_mod_converse(i, s, a, b);
    }
}

impl Clone for DirectedTask {
    fn clone(&self) -> (r: Self)
        ensures
            r.assignee@ == self.assignee@,
            r.requester@ == self.requester@,
            r.cx == self.cx,
            r.cz == self.cz,
            r.radius == self.radius,
            r.target_y == self.target_y,
            r.cursor == self.cursor,
            r.pave == self.pave,
            r.quarry is Some <==> self.quarry is Some,
            r.quarry is Some ==> r.quarry.unwrap().cells@ == self.quarry.unwrap().cells@
                && r.quarry.unwrap().idx == self.quarry.unwrap().idx,
            r.wells_dug == self.wells_dug,
            r.prov_seen == self.prov_seen,
    {
        let quarry = match &self.quarry {
            Some(q) => Some(q.clone()),
            None => None,
        };
        DirectedTask {
            assignee: String::from_str(self.assignee.as_str()),
            requester: String::from_str(self.requester.as_str()),
            cx: self.cx,
            cz: self.cz,
            radius: self.radius,
            target_y: self.target_y,
            cursor: self.cursor,
            pave: self.pave,
            quarry,
            wells_dug: self.wells_dug,
            prov_seen: self.prov_seen,
        }
    }
}

/// Whether height `y` of a column is solid (heights outside the column are air).
pub open spec fn solid_at(col: Seq<(Block, bool)>, y: int) -> bool {
    0 <= y < col.len() && col[y].1
}

/// The block at height `y` of a column (air outside it).
pub open spec fn block_in(col: Seq<(Block, bool)>, y: int) -> Block {
    if 0 <= y < col.len() {
        col[y].0
    } else {
        Block::Air
    }
}

/// Digging out, bottom up, the solid blocks among the `n` heights from `lo`.
pub open spec fn shaved(col: Seq<(Block, bool)>, x: i32, z: i32, lo: int, n: nat) -> Seq<(i32, i32, i32, Block)>
    decreases n,
{
    if n == 0 {
        Seq::empty()
    } else {
        let y = lo + n - 1;
        shaved(col, x, z, lo, (n - 1) as nat) + if solid_at(col, y) {
            seq![(x, y as i32, z, Block::Air)]
        } else {
            Seq::empty()
        }
    }
}

/// Filling, top down from `y` to `bottom`, the heights that are not solid, up to the
/// first solid one: grass at height `top`, earth below it.
pub open spec fn filled(col: Seq<(Block, bool)>, x: i32, z: i32, top: int, y: int, bottom: int) -> Seq<
    (i32, i32, i32, Block),
>
    decreases y - bottom + 1,
{
    if y < bottom || solid_at(col, y) {
        Seq::empty()
    } else {
        seq![(x, y as i32, z, if y == top { Block::Grass } else { Block::Dirt })] + filled(
            col,
            x,
            z,
            top,
            y - 1,
            bottom,
        )
    }
}

/// The lowest height that filling reaches below `target_y`.
pub open spec fn fill_bottom(target_y: int) -> int {
    if target_y - LEVEL_MAX_DOWN >= 0 {
        target_y - LEVEL_MAX_DOWN
    } else {
        0
    }
}

/// The changes that level column (x, z) to `target_y`: the solid blocks above it, up to
/// the reach, dug out, then the hollow below it filled down to firm ground.
pub open spec fn level_changes(col: Seq<(Block, bool)>, x: i32, z: i32, target_y: int) -> Seq<
    (i32, i32, i32, Block),
> {
    shaved(col, x, z, target_y + 1, LEVEL_MAX_UP as nat) + filled(col, x, z, target_y, target_y, fill_bottom(target_y))
}

/// The changes that pave column (x, z) at `target_y` with `mat`: dug out above as for
/// levelling, the top replaced by `mat` unless it is `mat` already, and, where the top
/// was hollow, earth filled below it down to firm ground.
pub open spec fn pave_changes(col: Seq<(Block, bool)>, x: i32, z: i32, target_y: int, mat: Block) -> Seq<
    (i32, i32, i32, Block),
> {
    shaved(col, x, z, target_y + 1, LEVEL_MAX_UP as nat) + (if block_in(col, target_y) != mat {
        seq![(x, target_y as i32, z, mat)]
    } else {
        Seq::empty()
    }) + (if !solid_at(col, target_y) {
        filled(col, x, z, target_y, target_y - 1, fill_bottom(target_y))
    } else {
        Seq::empty()
    })
}

fn probe(col: &[(Block, bool)], y: i32) -> (r: (Block, bool))
    ensures
        r.0 == block_in(col@, y as int),
        r.1 == solid_at(col@, y as int),
{
    if y >= 0 && (y as usize) < col.len() {
        col[y as usize]
    } else {
        (Block::Air, false)
    }
}

fn shave_into(out: &mut Vec<(i32, i32, i32, Block)>, col: &[(Block, bool)], x: i32, z: i32, target_y: i32)
    requires
        target_y <= i32::MAX - LEVEL_MAX_UP,
    ensures
        final(out)@ == old(out)@ + shaved(col@, x, z, target_y + 1, LEVEL_MAX_UP as nat),
{
    let ghost start = out@;
    let mut k: i32 = 1;
    while k <= LEVEL_MAX_UP
        invariant
            target_y <= i32::MAX - LEVEL_MAX_UP,
            1 <= k <= LEVEL_MAX_UP + 1,
            out@ == start + shaved(col@, x, z, target_y + 1, (k - 1) as nat),
        decreases LEVEL_MAX_UP + 1 - k,
    {
        let y = target_y + k;
        let (_, solid) = probe(col, y);
        let ghost n = k as nat;
        proof {
            assert(shaved(col@, x, z, target_y + 1, n) == shaved(col@, x, z, target_y + 1, (n - 1) as nat) + if solid_at(
                col@,
                y as int,
            ) {
                seq![(x, y, z, Block::Air)]
            } else {
                Seq::empty()
            });
        }
        if solid {
            out.push((x, y, z, Block::Air));
        }
        proof {
            assert(out@ =~= start + shaved(col@, x, z, target_y + 1, n));
        }
        k = k + 1;
    }
}

fn fill_into(out: &mut Vec<(i32, i32, i32, Block)>, col: &[(Block, bool)], x: i32, z: i32, top: i32, from: i32)
    requires
        from <= top,
        i32::MIN + LEVEL_MAX_DOWN <= top,
    ensures
        final(out)@ == old(out)@ + filled(col@, x, z, top as int, from as int, fill_bottom(top as int)),
{
    let ghost start = out@;
    let bottom = if top - LEVEL_MAX_DOWN >= 0 {
        top - LEVEL_MAX_DOWN
    } else {
        0
    };
    let ghost whole = filled(col@, x, z, top as int, from as int, bottom as int);
    let mut y = from;
    while y >= bottom
        invariant
            y <= from,
            bottom - 1 <= y || y == from,
            bottom == fill_bottom(top as int),
            whole == filled(col@, x, z, top as int, from as int, bottom as int),
            out@.len() >= start.len(),
            out@.subrange(0, start.len() as int) == start,
            whole == out@.subrange(start.len() as int, out@.len() as int) + filled(
                col@,
                x,
                z,
                top as int,
                y as int,
                bottom as int,
            ),
        ensures
            out@ == start + whole,
        decreases y - bottom + 1,
    {
        let (_, solid) = probe(col, y);
        if solid {
            proof {
                assert(out@ =~= start + whole);
            }
            break;
        }
        let b = if y == top {
            Block::Grass
        } else {
            Block::Dirt
        };
        let ghost before = out@;
        out.push((x, y, z, b));
        proof {
            assert(out@.subrange(0, start.len() as int) =~= start);
            assert(out@.subrange(start.len() as int, out@.len() as int) =~= before.subrange(
                start.len() as int,
                before.len() as int,
            ).push((x, y, z, b)));
            assert(whole =~= out@.subrange(start.len() as int, out@.len() as int) + filled(
                col@,
                x,
                z,
                top as int,
                y - 1,
                bottom as int,
            ));
        }
        y = y - 1;
    }
    proof {
        assert(out@ =~= start + whole);
    }
}

/// Levelling one column: the changes that bring column (x, z), given as `col`, to
/// `target_y`. The solid blocks up to `LEVEL_MAX_UP` above the target are dug out,
/// bottom up; then, from the target down to at most `LEVEL_MAX_DOWN` below it (and
/// not below 0), each hollow height is filled until firm ground: grass on top, earth
/// beneath. A column already flat gives no change.
pub fn level_column(col: &[(Block, bool)], x: i32, z: i32, target_y: i32) -> (r: Vec<(i32, i32, i32, Block)>)
    requires
        i32::MIN + LEVEL_MAX_DOWN <= target_y <= i32::MAX - LEVEL_MAX_UP,
    ensures
        r@ == level_changes(col@, x, z, target_y as int),
{
    let mut out: Vec<(i32, i32, i32, Block)> = Vec::new();
    shave_into(&mut out, col, x, z, target_y);
    fill_into(&mut out, col, x, z, target_y, target_y);
    proof {
        assert(out@ =~= level_changes(col@, x, z, target_y as int));
    }
    out
}

/// Paving one column: the changes that bring column (x, z), given as `col`, to
/// `target_y` topped with `mat`. Above the target, dug out as for levelling; the top is
/// set to `mat` unless it is `mat` already (one piece of material); where the top was
/// hollow, earth is filled beneath it down to firm ground.
pub fn pave_column(col: &[(Block, bool)], x: i32, z: i32, target_y: i32, mat: Block) -> (r: Vec<
    (i32, i32, i32, Block),
>)
    requires
        i32::MIN + LEVEL_MAX_DOWN <= target_y <= i32::MAX - LEVEL_MAX_UP,
    ensures
        r@ == pave_changes(col@, x, z, target_y as int, mat),
{
    let mut out: Vec<(i32, i32, i32, Block)> = Vec::new();
    shave_into(&mut out, col, x, z, target_y);
    let ghost shave = out@;
    let (top_now, top_solid) = probe(col, target_y);
    if top_now != mat {
        out.push((x, target_y, z, mat));
    }
    let ghost mid = out@;
    if !top_solid {
        fill_into(&mut out, col, x, z, target_y, target_y - 1);
    }
    proof {
        assert(out@ =~= pave_changes(col@, x, z, target_y as int, mat));
    }
    out
}

/// The highest solid height of a column, if it has one.
pub open spec fn top_solid(col: Seq<(Block, bool)>) -> Option<int> {
    if exists|y: int| 0 <= y < col.len() && #[trigger] col[y].1 {
        Some(choose|y: int| 0 <= y < col.len() && #[trigger] col[y].1 && forall|k: int| y < k < col.len() ==> !col[k].1)
    } else {
        None
    }
}

/// The height of the highest solid block of column `col`, scanned from its top, or
/// `None` when nothing in it is solid.
pub fn ground_top(col: &[(Block, bool)]) -> (r: Option<i32>)
    requires
        col@.len() <= i32::MAX as int + 1,
    ensures
        match r {
            Some(y) => 0 <= y < col@.len() && col@[y as int].1 && forall|k: int| y < k < col@.len() ==> !col@[k].1,
            None => forall|k: int| 0 <= k < col@.len() ==> !col@[k].1,
        },
        r matches Some(y) ==> top_solid(col@) == Some(y as int),
        r is None ==> top_solid(col@) is None,
{
    let mut i = col.len();
    while i > 0
        invariant
            i <= col@.len(),
            col@.len() <= i32::MAX as int + 1,
            forall|k: int| i <= k < col@.len() ==> !col@[k].1,
        decreases i,
    {
        i = i - 1;
        if col[i].1 {
            let y = i as i32;
            proof {
                let w = choose|w: int| 0 <= w < col@.len() && #[trigger] col@[w].1 && forall|k: int| w < k < col@.len() ==> !col@[k].1;
                assert(0 <= i < col@.len() && col@[i as int].1);
                if w != i {
                    if w < i {
                        assert(!col@[i as int].1);
                    } else {
                        assert(!col@[w].1);
                    }
                }
            }
            return Some(y);
        }
    }
    None
}

/// The cells of a quarry from `lo` to `hi` that hold something solid, with the block
/// each held (the block and solidity of cell `k` being `now[k]`).
pub open spec fn dug(cells: Seq<(i32, i32, i32)>, now: Seq<(Block, bool)>, lo: int, hi: int) -> Seq<
    (i32, i32, i32, Block),
>
    decreases hi - lo,
{
    if hi <= lo {
        Seq::empty()
    } else {
        dug(cells, now, lo, hi - 1) + if now[hi - 1].1 {
            seq![(cells[hi - 1].0, cells[hi - 1].1, cells[hi - 1].2, now[hi - 1].0)]
        } else {
            Seq::empty()
        }
    }
}

/// One batch of a quarry: from its next cell, at most `max_cells` cells (and none past
/// the last); the solid ones are returned with the block each held, so that the caller
/// clears them and keeps the blocks; air and water are passed over. `now[k]` is the
/// block at cell `k` and whether it is solid. Returns the changes and the new index.
pub fn quarry_step(q: &QuarryDig, max_cells: usize, now: &[(Block, bool)]) -> (r: (
    Vec<(i32, i32, i32, Block)>,
    usize,
))
    requires
        now@.len() == q.cells@.len(),
        q.idx + max_cells <= usize::MAX,
    ensures
        ({
            let end = if q.idx + max_cells <= q.cells@.len() { q.idx + max_cells } else { q.cells@.len() as int };
            &&& r.1 == (if q.idx < end { end } else { q.idx as int })
            &&& r.0@ == dug(q.cells@, now@, q.idx as int, end)
        }),
{
    let mut out: Vec<(i32, i32, i32, Block)> = Vec::new();
    let mut idx = q.idx;
    let sum = q.idx + max_cells;
    let end = if sum <= q.cells.len() {
        sum
    } else {
        q.cells.len()
    };
    proof {
        if q.idx >= end {
            assert(dug(q.cells@, now@, q.idx as int, end as int) =~= Seq::empty());
        }
    }
    while idx < end
        invariant
            q.idx <= idx,
            q.idx < end ==> idx <= end,
            q.idx >= end ==> idx == q.idx,
            end <= q.cells@.len(),
            now@.len() == q.cells@.len(),
            out@ == dug(q.cells@, now@, q.idx as int, idx as int),
        decreases end - idx,
    {
        let (x, y, z) = q.cells[idx];
        let (b, solid) = now[idx];
        if solid {
            out.push((x, y, z, b));
        }
        idx = idx + 1;
        proof {
            assert(out@ =~= dug(q.cells@, now@, q.idx as int, idx as int));
        }
    }
    proof {
        if q.idx >= end {
            assert(idx == q.idx);
            assert(out@ =~= dug(q.cells@, now@, q.idx as int, end as int));
        } else {
            assert(idx == end);
        }
    }
    (out, idx)
}

impl DirectedTask {
    /// The square is small enough to count its columns, and its cells are world
    /// coordinates; the target height leaves room to dig above and fill below.
    pub open spec fn fits(&self) -> bool {
        &&& self.radius_ok()
        &&& self.column_count() <= usize::MAX
        &&& i32::MIN <= self.cx - self.radius
        &&& self.cx - self.radius + self.side_len() - 1 <= i32::MAX
        &&& i32::MIN <= self.cz - self.radius
        &&& self.cz - self.radius + self.side_len() - 1 <= i32::MAX
        &&& i32::MIN + LEVEL_MAX_DOWN <= self.target_y <= i32::MAX - LEVEL_MAX_UP
    }

    /// How many columns a batch of at most `max_cols` handles: no more than
    /// `LEVEL_COLUMNS_PER_STEP`, and none past the last column.
    pub open spec fn batch_len(&self, max_cols: int) -> int {
        let cap = if max_cols < LEVEL_COLUMNS_PER_STEP { max_cols } else { LEVEL_COLUMNS_PER_STEP as int };
        if self.cursor >= self.column_count() {
            0
        } else if cap <= self.column_count() - self.cursor {
            cap
        } else {
            self.column_count() - self.cursor
        }
    }
}

/// The changes of levelling the first `n` columns of a batch, column `k` being given
/// as `scans[k]`.
pub open spec fn level_batch(scans: Seq<Vec<(Block, bool)>>, t: DirectedTask, n: nat) -> Seq<
    (i32, i32, i32, Block),
>
    decreases n,
{
    if n == 0 {
        Seq::empty()
    } else {
        let (x, z) = t.column(t.cursor + n - 1);
        level_batch(scans, t, (n - 1) as nat) + level_changes(scans[n - 1]@, x as i32, z as i32, t.target_y as int)
    }
}

/// The changes of paving the first `n` columns of a batch with `mat`.
pub open spec fn pave_batch(scans: Seq<Vec<(Block, bool)>>, t: DirectedTask, mat: Block, n: nat) -> Seq<
    (i32, i32, i32, Block),
>
    decreases n,
{
    if n == 0 {
        Seq::empty()
    } else {
        let (x, z) = t.column(t.cursor + n - 1);
        pave_batch(scans, t, mat, (n - 1) as nat) + pave_changes(
            scans[n - 1]@,
            x as i32,
            z as i32,
            t.target_y as int,
            mat,
        )
    }
}

/// How many of the first `n` columns of a batch do not have `mat` on top yet, each of
/// which takes one piece of material.
pub open spec fn material_needed(scans: Seq<Vec<(Block, bool)>>, t: DirectedTask, mat: Block, n: nat) -> int
    decreases n,
{
    if n == 0 {
        0
    } else {
        material_needed(scans, t, mat, (n - 1) as nat) + if block_in(scans[n - 1]@, t.target_y as int) != mat {
            1int
        } else {
            0
        }
    }
}

/// One batch of levelling: from the task's next column, at most `max_cols` columns (and
/// at most `LEVEL_COLUMNS_PER_STEP`), column `k` of the batch being given as `scans[k]`.
/// Returns the changes, column after column, and the next column to handle.
pub fn level_step_capped(scans: &[Vec<(Block, bool)>], task: &DirectedTask, max_cols: usize) -> (r: (
    Vec<(i32, i32, i32, Block)>,
    usize,
))
    requires
        task.fits(),
        scans@.len() >= task.batch_len(max_cols as int),
    ensures
        r.1 == task.cursor + task.batch_len(max_cols as int),
        r.0@ == level_batch(scans@, *task, task.batch_len(max_cols as int) as nat),
{
    let total = task.total_columns();
    let cap = if max_cols < LEVEL_COLUMNS_PER_STEP {
        max_cols
    } else {
        LEVEL_COLUMNS_PER_STEP
    };
    let mut changes: Vec<(i32, i32, i32, Block)> = Vec::new();
    let mut cursor = task.cursor;
    let mut processed: usize = 0;
    while cursor < total && processed < cap
        invariant
            task.fits(),
            total == task.column_count(),
            cap as int == (if max_cols < LEVEL_COLUMNS_PER_STEP { max_cols as int } else { LEVEL_COLUMNS_PER_STEP as int }),
            scans@.len() >= task.batch_len(max_cols as int),
            cursor == task.cursor + processed,
            processed <= cap,
            task.cursor < total ==> cursor <= total,
            task.cursor >= total ==> processed == 0,
            changes@ == level_batch(scans@, *task, processed as nat),
        decreases cap - processed,
    {
        let (x, z) = task.column_at(cursor);
        let mut col = level_column(scans[processed].as_slice(), x, z, task.target_y);
        changes.append(&mut col);
        processed = processed + 1;
        cursor = cursor + 1;
    }
    (changes, cursor)
}

/// One batch of levelling of at most `LEVEL_COLUMNS_PER_STEP` columns.
pub fn level_step(scans: &[Vec<(Block, bool)>], task: &DirectedTask) -> (r: (Vec<(i32, i32, i32, Block)>, usize))
    requires
        task.fits(),
        scans@.len() >= task.batch_len(LEVEL_COLUMNS_PER_STEP as int),
    ensures
        r.1 == task.cursor + task.batch_len(LEVEL_COLUMNS_PER_STEP as int),
        r.0@ == level_batch(scans@, *task, task.batch_len(LEVEL_COLUMNS_PER_STEP as int) as nat),
{
    level_step_capped(scans, task, LEVEL_COLUMNS_PER_STEP)
}

/// One batch of paving with the task's material (grass when it has none): from the next
/// column, at most `max_cols` columns (and at most `LEVEL_COLUMNS_PER_STEP`), column `k`
/// of the batch being given as `scans[k]`. Returns the changes, the next column, and how
/// many pieces of material the batch uses: one per column whose top is not the material
/// yet.
pub fn pave_step_capped(scans: &[Vec<(Block, bool)>], task: &DirectedTask, max_cols: usize) -> (r: (
    Vec<(i32, i32, i32, Block)>,
    usize,
    u32,
))
    requires
        task.fits(),
        scans@.len() >= task.batch_len(max_cols as int),
    ensures
        ({
            let mat = match task.pave { Some(m) => m, None => Block::Grass };
            let n = task.batch_len(max_cols as int) as nat;
            &&& r.1 == task.cursor + n
            &&& r.0@ == pave_batch(scans@, *task, mat, n)
            &&& r.2 == material_needed(scans@, *task, mat, n)
        }),
{
    let mat = match task.pave {
        Some(m) => m,
        None => Block::Grass,
    };
    let total = task.total_columns();
    let cap = if max_cols < LEVEL_COLUMNS_PER_STEP {
        max_cols
    } else {
        LEVEL_COLUMNS_PER_STEP
    };
    let mut changes: Vec<(i32, i32, i32, Block)> = Vec::new();
    let mut cursor = task.cursor;
    let mut processed: usize = 0;
    let mut mat_needed: u32 = 0;
    while cursor < total && processed < cap
        invariant
            task.fits(),
            mat == (match task.pave { Some(m) => m, None => Block::Grass }),
            total == task.column_count(),
            cap as int == (if max_cols < LEVEL_COLUMNS_PER_STEP { max_cols as int } else { LEVEL_COLUMNS_PER_STEP as int }),
            scans@.len() >= task.batch_len(max_cols as int),
            cursor == task.cursor + processed,
            processed <= cap,
            task.cursor < total ==> cursor <= total,
            task.cursor >= total ==> processed == 0,
            changes@ == pave_batch(scans@, *task, mat, processed as nat),
            mat_needed == material_needed(scans@, *task, mat, processed as nat),
            mat_needed <= processed,
        decreases cap - processed,
    {
        let (x, z) = task.column_at(cursor);
        let scan = scans[processed].as_slice();
        let (top_now, _) = probe(scan, task.target_y);
        if top_now != mat {
            mat_needed = mat_needed + 1;
        }
        let mut col = pave_column(scan, x, z, task.target_y, mat);
        changes.append(&mut col);
        processed = processed + 1;
        cursor = cursor + 1;
    }
    (changes, cursor, mat_needed)
}

/// Whether height `y` of column `col` is solid once `changes` are made in order: the
/// last change at that height decides (air is not solid, anything placed is), else the
/// column as it was.
pub open spec fn solid_after(col: Seq<(Block, bool)>, changes: Seq<(i32, i32, i32, Block)>, y: int) -> bool
    decreases changes.len(),
{
    if changes.len() == 0 {
        solid_at(col, y)
    } else if changes.last().1 as int == y {
        changes.last().3 != Block::Air
    } else {
        solid_after(col, changes.drop_last(), y)
    }
}

proof fn lemma_after_append_nohit(col: Seq<(Block, bool)>, a: Seq<(i32, i32, i32, Block)>, b: Seq<(i32, i32, i32, Block)>, y: int)
    requires
        forall|i: int| 0 <= i < b.len() ==> #[trigger] b[i].1 as int != y,
    ensures
        solid_after(col, a + b, y) == solid_after(col, a, y),
    decreases b.len(),
{
    if b.len() > 0 {
        assert((a + b).drop_last() =~= a + b.drop_last());
        assert((a + b).last() == b.last());
        assert(b.last() == b[b.len() - 1]);
        lemma_after_append_nohit(col, a, b.drop_last(), y);
    } else {
        assert(a + b =~= a);
    }
}

proof fn lemma_after_shaved(col: Seq<(Block, bool)>, x: i32, z: i32, lo: int, n: nat, y: int)
    requires
        i32::MIN <= lo,
        lo + n - 1 <= i32::MAX,
    ensures
        solid_after(col, shaved(col, x, z, lo, n), y) == (if lo <= y < lo + n { false } else { solid_at(col, y) }),
    decreases n,
{
    if n > 0 {
        let top = lo + n - 1;
        let prev = shaved(col, x, z, lo, (n - 1) as nat);
        lemma_after_shaved(col, x, z, lo, (n - 1) as nat, y);
        if solid_at(col, top) {
            let e = (x, top as i32, z, Block::Air);
            assert(shaved(col, x, z, lo, n) =~= prev.push(e));
            assert(prev.push(e).drop_last() =~= prev);
        } else {
            assert(shaved(col, x, z, lo, n) =~= prev);
        }
    }
}

proof fn lemma_filled_heights(col: Seq<(Block, bool)>, x: i32, z: i32, top: int, y: int, bottom: int)
    requires
        i32::MIN <= bottom,
        y <= i32::MAX,
    ensures
        forall|i: int|
            0 <= i < filled(col, x, z, top, y, bottom).len() ==> bottom <= #[trigger] filled(col, x, z, top, y, bottom)[i].1
                <= y,
    decreases y - bottom + 1,
{
    if !(y < bottom || solid_at(col, y)) {
        lemma_filled_heights(col, x, z, top, y - 1, bottom);
        let rest = filled(col, x, z, top, y - 1, bottom);
        let e = (x, y as i32, z, if y == top { Block::Grass } else { Block::Dirt });
        assert(filled(col, x, z, top, y, bottom) =~= seq![e] + rest);
        assert forall|i: int| 0 <= i < filled(col, x, z, top, y, bottom).len() implies bottom
            <= #[trigger] filled(col, x, z, top, y, bottom)[i].1 <= y by {
            if i > 0 {
                assert(filled(col, x, z, top, y, bottom)[i] == rest[i - 1]);
            }
        }
    }
}

/// Levelling a column that the scan covers up to the reach above the target, with
/// nothing solid above that reach, leaves its surface exactly at the target height:
/// the target height is solid afterwards and every height above it is not.
pub proof fn lemma_level_column_flattens(col: Seq<(Block, bool)>, x: i32, z: i32, target_y: int)
    requires
        0 <= target_y,
        target_y + LEVEL_MAX_UP < col.len() <= i32::MAX,
        forall|y: int| target_y + LEVEL_MAX_UP < y < col.len() ==> !(#[trigger] col[y]).1,
    ensures
        solid_after(col, level_changes(col, x, z, target_y), target_y),
        forall|y: int| target_y < y ==> !#[trigger] solid_after(col, level_changes(col, x, z, target_y), y),
{
    let shave = shaved(col, x, z, target_y + 1, LEVEL_MAX_UP as nat);
    let bottom = fill_bottom(target_y);
    let fill = filled(col, x, z, target_y, target_y, bottom);
    assert(level_changes(col, x, z, target_y) == shave + fill);
    lemma_filled_heights(col, x, z, target_y, target_y, bottom);
    assert forall|y: int| target_y < y implies !#[trigger] solid_after(col, level_changes(col, x, z, target_y), y) by {
        lemma_after_append_nohit(col, shave, fill, y);
        lemma_after_shaved(col, x, z, target_y + 1, LEVEL_MAX_UP as nat, y);
        if y >= col.len() {
            assert(!solid_at(col, y));
        }
    }
    lemma_after_shaved(col, x, z, target_y + 1, LEVEL_MAX_UP as nat, target_y);
    if solid_at(col, target_y) {
        assert(fill =~= Seq::<(i32, i32, i32, Block)>::empty());
        assert(shave + fill =~= shave);
    } else {
        let rest = filled(col, x, z, target_y, target_y - 1, bottom);
        let e = (x, target_y as i32, z, Block::Grass);
        assert(fill =~= seq![e] + rest);
        lemma_filled_heights(col, x, z, target_y, target_y - 1, bottom);
        assert(shave + fill =~= shave.push(e) + rest);
        lemma_after_append_nohit(col, shave.push(e), rest, target_y);
        assert(shave.push(e).last() == e);
    }
}

/// The block at height `y` of column `col` once `changes` are made in order: the last
/// change at that height decides, else the column as it was.
pub open spec fn block_after(col: Seq<(Block, bool)>, changes: Seq<(i32, i32, i32, Block)>, y: int) -> Block
    decreases changes.len(),
{
    if changes.len() == 0 {
        block_in(col, y)
    } else if changes.last().1 as int == y {
        changes.last().3
    } else {
        block_after(col, changes.drop_last(), y)
    }
}

proof fn lemma_block_after_append_nohit(
    col: Seq<(Block, bool)>,
    a: Seq<(i32, i32, i32, Block)>,
    b: Seq<(i32, i32, i32, Block)>,
    y: int,
)
    requires
        forall|i: int| 0 <= i < b.len() ==> #[trigger] b[i].1 as int != y,
    ensures
        block_after(col, a + b, y) == block_after(col, a, y),
    decreases b.len(),
{
    if b.len() > 0 {
        assert((a + b).drop_last() =~= a + b.drop_last());
        assert((a + b).last() == b.last());
        assert(b.last() == b[b.len() - 1]);
        lemma_block_after_append_nohit(col, a, b.drop_last(), y);
    } else {
        assert(a + b =~= a);
    }
}

proof fn lemma_shaved_heights(col: Seq<(Block, bool)>, x: i32, z: i32, lo: int, n: nat)
    requires
        i32::MIN <= lo,
        lo + n - 1 <= i32::MAX,
    ensures
        forall|i: int|
            0 <= i < shaved(col, x, z, lo, n).len() ==> lo <= #[trigger] shaved(col, x, z, lo, n)[i].1 < lo + n,
    decreases n,
{
    if n > 0 {
        let prev = shaved(col, x, z, lo, (n - 1) as nat);
        lemma_shaved_heights(col, x, z, lo, (n - 1) as nat);
        let top = lo + n - 1;
        if solid_at(col, top) {
            assert(shaved(col, x, z, lo, n) =~= prev.push((x, top as i32, z, Block::Air)));
        } else {
            assert(shaved(col, x, z, lo, n) =~= prev);
        }
    }
}

/// Paving a column with a material other than air, where the scan covers the reach
/// above the target, nothing is solid above that reach and the material is solid wherever
/// it stands, leaves the surface exactly at the target height with the material on top.
pub proof fn lemma_pave_column_flattens(col: Seq<(Block, bool)>, x: i32, z: i32, target_y: int, mat: Block)
    requires
        mat != Block::Air,
        0 <= target_y,
        target_y + LEVEL_MAX_UP < col.len() <= i32::MAX,
        forall|y: int| target_y + LEVEL_MAX_UP < y < col.len() ==> !(#[trigger] col[y]).1,
        forall|y: int| 0 <= y < col.len() && (#[trigger] col[y]).0 == mat ==> col[y].1,
    ensures
        solid_after(col, pave_changes(col, x, z, target_y, mat), target_y),
        block_after(col, pave_changes(col, x, z, target_y, mat), target_y) == mat,
        forall|y: int| target_y < y ==> !#[trigger] solid_after(col, pave_changes(col, x, z, target_y, mat), y),
{
    let shave = shaved(col, x, z, target_y + 1, LEVEL_MAX_UP as nat);
    let bottom = fill_bottom(target_y);
    let topseg: Seq<(i32, i32, i32, Block)> = if block_in(col, target_y) != mat {
        seq![(x, target_y as i32, z, mat)]
    } else {
        Seq::empty()
    };
    let fill: Seq<(i32, i32, i32, Block)> = if !solid_at(col, target_y) {
        filled(col, x, z, target_y, target_y - 1, bottom)
    } else {
        Seq::empty()
    };
    let pc = pave_changes(col, x, z, target_y, mat);
    assert(pc == shave + topseg + fill);
    lemma_filled_heights(col, x, z, target_y, target_y - 1, bottom);
    lemma_shaved_heights(col, x, z, target_y + 1, LEVEL_MAX_UP as nat);
    assert forall|i: int| 0 <= i < fill.len() implies #[trigger] fill[i].1 as int != target_y by {
        assert(fill[i] == filled(col, x, z, target_y, target_y - 1, bottom)[i]);
    }
    assert forall|y: int| target_y < y implies !#[trigger] solid_after(col, pc, y) by {
        assert forall|i: int| 0 <= i < fill.len() implies #[trigger] fill[i].1 as int != y by {
            assert(fill[i] == filled(col, x, z, target_y, target_y - 1, bottom)[i]);
        }
        lemma_after_append_nohit(col, shave + topseg, fill, y);
        lemma_after_append_nohit(col, shave, topseg, y);
        lemma_after_shaved(col, x, z, target_y + 1, LEVEL_MAX_UP as nat, y);
        if y >= col.len() {
            assert(!solid_at(col, y));
        }
    }
    lemma_after_append_nohit(col, shave + topseg, fill, target_y);
    lemma_block_after_append_nohit(col, shave + topseg, fill, target_y);
    assert forall|i: int| 0 <= i < shave.len() implies #[trigger] shave[i].1 as int != target_y by {}
    if block_in(col, target_y) != mat {
        assert(shave + topseg =~= shave.push((x, target_y as i32, z, mat)));
    } else {
        assert(shave + topseg =~= shave);
        lemma_after_shaved(col, x, z, target_y + 1, LEVEL_MAX_UP as nat, target_y);
        lemma_block_after_append_nohit(col, Seq::empty(), shave, target_y);
        assert(Seq::<(i32, i32, i32, Block)>::empty() + shave =~= shave);
    }
}

} // verus!
