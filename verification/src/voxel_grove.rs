//! Growing trees: a sapling planted on soil grows, after a while, into a small tree of a
//! three-block trunk and a leafy crown, shaped like the trees of the wild.

use vstd::prelude::*;

verus! {

/// The sapling's item and block id.
pub const SAPLING_ID: u8 = 65;

/// Seconds a sapling takes to grow into a tree.
pub const SAPLING_GROW_SECS: u64 = 150;

/// Whether a sapling may be planted on block `block_id`: grass, dirt, sand, farm soil or snow.
pub fn is_plantable_ground(block_id: u8) -> (b: bool)
    ensures
        b == (block_id == 1 || block_id == 2 || block_id == 4 || block_id == 11 || block_id == 55),
{
    block_id == 1 || block_id == 2 || block_id == 4 || block_id == 11 || block_id == 55
}

/// What a grown tree is made of.
#[derive(Clone, Copy, Debug, PartialEq, Eq, Structural)]
pub enum GroveBlock {
    /// Trunk (wood).
    Trunk,
    /// Crown (leaves).
    Leaf,
}

/// The parts of a grown tree relative to the sapling: the three trunk blocks from the
/// sapling up, a ring of eight leaves round the top two trunk blocks, and a cross of five
/// leaves above the trunk.
pub open spec fn tree_offsets() -> Seq<(i32, i32, i32, GroveBlock)> {
    seq![
        (0i32, 0i32, 0i32, GroveBlock::Trunk),
        (0i32, 1i32, 0i32, GroveBlock::Trunk),
        (0i32, 2i32, 0i32, GroveBlock::Trunk),
        (-1i32, 1i32, -1i32, GroveBlock::Leaf),
        (-1i32, 1i32, 0i32, GroveBlock::Leaf),
        (-1i32, 1i32, 1i32, GroveBlock::Leaf),
        (0i32, 1i32, -1i32, GroveBlock::Leaf),
        (0i32, 1i32, 1i32, GroveBlock::Leaf),
        (1i32, 1i32, -1i32, GroveBlock::Leaf),
        (1i32, 1i32, 0i32, GroveBlock::Leaf),
        (1i32, 1i32, 1i32, GroveBlock::Leaf),
        (-1i32, 2i32, -1i32, GroveBlock::Leaf),
        (-1i32, 2i32, 0i32, GroveBlock::Leaf),
        (-1i32, 2i32, 1i32, GroveBlock::Leaf),
        (0i32, 2i32, -1i32, GroveBlock::Leaf),
        (0i32, 2i32, 1i32, GroveBlock::Leaf),
        (1i32, 2i32, -1i32, GroveBlock::Leaf),
        (1i32, 2i32, 0i32, GroveBlock::Leaf),
        (1i32, 2i32, 1i32, GroveBlock::Leaf),
        (0i32, 3i32, 0i32, GroveBlock::Leaf),
        (1i32, 3i32, 0i32, GroveBlock::Leaf),
        (-1i32, 3i32, 0i32, GroveBlock::Leaf),
        (0i32, 3i32, 1i32, GroveBlock::Leaf),
        (0i32, 3i32, -1i32, GroveBlock::Leaf),
    ]
}

/// The tree grown from the sapling at `(x, y, z)`, in world positions.
pub fn grown_tree_blocks(x: i32, y: i32, z: i32) -> (r: Vec<(i32, i32, i32, GroveBlock)>)
    requires
        i32::MIN < x < i32::MAX,
        y <= i32::MAX - 3,
        i32::MIN < z < i32::MAX,
    ensures
        r@.len() == tree_offsets().len(),
        forall|k: int| 0 <= k < r@.len() ==> {
            let o = tree_offsets()[k];
            #[trigger] r@[k] == ((x + o.0) as i32, (y + o.1) as i32, (z + o.2) as i32, o.3)
        },
{
    let offsets: [(i32, i32, i32, GroveBlock); 24] = [
        (0i32, 0i32, 0i32, GroveBlock::Trunk),
        (0i32, 1i32, 0i32, GroveBlock::Trunk),
        (0i32, 2i32, 0i32, GroveBlock::Trunk),
        (-1i32, 1i32, -1i32, GroveBlock::Leaf),
        (-1i32, 1i32, 0i32, GroveBlock::Leaf),
        (-1i32, 1i32, 1i32, GroveBlock::Leaf),
        (0i32, 1i32, -1i32, GroveBlock::Leaf),
        (0i32, 1i32, 1i32, GroveBlock::Leaf),
        (1i32, 1i32, -1i32, GroveBlock::Leaf),
        (1i32, 1i32, 0i32, GroveBlock::Leaf),
        (1i32, 1i32, 1i32, GroveBlock::Leaf),
        (-1i32, 2i32, -1i32, GroveBlock::Leaf),
        (-1i32, 2i32, 0i32, GroveBlock::Leaf),
        (-1i32, 2i32, 1i32, GroveBlock::Leaf),
        (0i32, 2i32, -1i32, GroveBlock::Leaf),
        (0i32, 2i32, 1i32, GroveBlock::Leaf),
        (1i32, 2i32, -1i32, GroveBlock::Leaf),
        (1i32, 2i32, 0i32, GroveBlock::Leaf),
        (1i32, 2i32, 1i32, GroveBlock::Leaf),
        (0i32, 3i32, 0i32, GroveBlock::Leaf),
        (1i32, 3i32, 0i32, GroveBlock::Leaf),
        (-1i32, 3i32, 0i32, GroveBlock::Leaf),
        (0i32, 3i32, 1i32, GroveBlock::Leaf),
        (0i32, 3i32, -1i32, GroveBlock::Leaf),
    ];
    proof {
        assert(offsets@ =~= tree_offsets());
    }
    let mut out: Vec<(i32, i32, i32, GroveBlock)> = Vec::new();
    let mut k: usize = 0;
    while k < 24
        invariant
            k <= 24,
            offsets@ == tree_offsets(),
            i32::MIN < x < i32::MAX,
            y <= i32::MAX - 3,
            i32::MIN < z < i32::MAX,
            out@.len() == k,
            forall|j: int| 0 <= j < k ==> {
                let o = tree_offsets()[j];
                #[trigger] out@[j] == ((x + o.0) as i32, (y + o.1) as i32, (z + o.2) as i32, o.3)
            },
        decreases 24 - k,
    {
        let o = offsets[k];
        proof {
            assert(-1 <= o.0 <= 1 && 0 <= o.1 <= 3 && -1 <= o.2 <= 1) by {
        if k == 0 {
        } else if k == 1 {
        } else if k == 2 {
        } else if k == 3 {
        } else if k == 4 {
        } else if k == 5 {
        } else if k == 6 {
        } else if k == 7 {
        } else if k == 8 {
        } else if k == 9 {
        } else if k == 10 {
        } else if k == 11 {
        } else if k == 12 {
        } else if k == 13 {
        } else if k == 14 {
        } else if k == 15 {
        } else if k == 16 {
        } else if k == 17 {
        } else if k == 18 {
        } else if k == 19 {
        } else if k == 20 {
        } else if k == 21 {
        } else if k == 22 {
        } else if k == 23 {
        } else {
        }
            }
        }
        out.push((x + o.0, y + o.1, z + o.2, o.3));
        k = k + 1;
    }
    out
}

/// The index of the tree part at offset `(dx, dy, dz)` (minus one for none).
pub open spec fn part_index(dx: int, dy: int, dz: int) -> int {
    if dx == 0 && dy == 0 && dz == 0 {
        0
    } else if dx == 0 && dy == 1 && dz == 0 {
        1
    } else if dx == 0 && dy == 2 && dz == 0 {
        2
    } else if dx == -1 && dy == 1 && dz == -1 {
        3
    } else if dx == -1 && dy == 1 && dz == 0 {
        4
    } else if dx == -1 && dy == 1 && dz == 1 {
        5
    } else if dx == 0 && dy == 1 && dz == -1 {
        6
    } else if dx == 0 && dy == 1 && dz == 1 {
        7
    } else if dx == 1 && dy == 1 && dz == -1 {
        8
    } else if dx == 1 && dy == 1 && dz == 0 {
        9
    } else if dx == 1 && dy == 1 && dz == 1 {
        10
    } else if dx == -1 && dy == 2 && dz == -1 {
        11
    } else if dx == -1 && dy == 2 && dz == 0 {
        12
    } else if dx == -1 && dy == 2 && dz == 1 {
        13
    } else if dx == 0 && dy == 2 && dz == -1 {
        14
    } else if dx == 0 && dy == 2 && dz == 1 {
        15
    } else if dx == 1 && dy == 2 && dz == -1 {
        16
    } else if dx == 1 && dy == 2 && dz == 0 {
        17
    } else if dx == 1 && dy == 2 && dz == 1 {
        18
    } else if dx == 0 && dy == 3 && dz == 0 {
        19
    } else if dx == 1 && dy == 3 && dz == 0 {
        20
    } else if dx == -1 && dy == 3 && dz == 0 {
        21
    } else if dx == 0 && dy == 3 && dz == 1 {
        22
    } else if dx == 0 && dy == 3 && dz == -1 {
        23
    } else {
        -1
    }
}

/// Law: a grown tree is a trunk column of three blocks rising from the sapling's place,
/// every leaf lies above that place, and no two parts share a position.
pub proof fn lemma_tree_shape()
    ensures
        forall|k: int| 0 <= k < 24 ==> ((#[trigger] tree_offsets()[k]).3 == GroveBlock::Trunk <==> k < 3),
        forall|k: int| 0 <= k < 3 ==> #[trigger] tree_offsets()[k] == (0i32, k as i32, 0i32, GroveBlock::Trunk),
        forall|k: int| 3 <= k < 24 ==> (#[trigger] tree_offsets()[k]).1 > 0,
        forall|i: int, j: int|
            0 <= i < 24 && 0 <= j < 24 && i != j ==> {
                let a = #[trigger] tree_offsets()[i];
                let b = #[trigger] tree_offsets()[j];
                (a.0, a.1, a.2) != (b.0, b.1, b.2)
            },
{
    assert forall|k: int| 0 <= k < 24 implies part_index(
        (#[trigger] tree_offsets()[k]).0 as int,
        tree_offsets()[k].1 as int,
        tree_offsets()[k].2 as int,
    ) == k by {
        if k == 0 {
        } else if k == 1 {
        } else if k == 2 {
        } else if k == 3 {
        } else if k == 4 {
        } else if k == 5 {
        } else if k == 6 {
        } else if k == 7 {
        } else if k == 8 {
        } else if k == 9 {
        } else if k == 10 {
        } else if k == 11 {
        } else if k == 12 {
        } else if k == 13 {
        } else if k == 14 {
        } else if k == 15 {
        } else if k == 16 {
        } else if k == 17 {
        } else if k == 18 {
        } else if k == 19 {
        } else if k == 20 {
        } else if k == 21 {
        } else if k == 22 {
        } else if k == 23 {
        } else {
        }
    }
    assert forall|k: int| 0 <= k < 24 implies ((#[trigger] tree_offsets()[k]).3 == GroveBlock::Trunk <==> k < 3) && (
    k >= 3 ==> tree_offsets()[k].1 > 0) by {
        if k == 0 {
        } else if k == 1 {
        } else if k == 2 {
        } else if k == 3 {
        } else if k == 4 {
        } else if k == 5 {
        } else if k == 6 {
        } else if k == 7 {
        } else if k == 8 {
        } else if k == 9 {
        } else if k == 10 {
        } else if k == 11 {
        } else if k == 12 {
        } else if k == 13 {
        } else if k == 14 {
        } else if k == 15 {
        } else if k == 16 {
        } else if k == 17 {
        } else if k == 18 {
        } else if k == 19 {
        } else if k == 20 {
        } else if k == 21 {
        } else if k == 22 {
        } else if k == 23 {
        } else {
        }
    }
}

/// A planted sapling: where, and when (Unix seconds).
#[derive(Clone, Copy, Debug, PartialEq, Eq, Structural)]
pub struct Sapling {
    pub x: i32,
    pub y: i32,
    pub z: i32,
    /// When it was planted, in Unix seconds.
    pub planted_secs: u64,
}

/// A sapling's position.
pub open spec fn spot(s: Sapling) -> (i32, i32, i32) {
    (s.x, s.y, s.z)
}

/// The saplings planted and not yet grown or dug up, one per position.
pub struct GroveStore {
    saplings: Vec<Sapling>,
}

/// Whether a sapling planted at `planted` has grown by `now`.
pub open spec fn grown_by(planted: u64, now: u64) -> bool {
    now >= (if planted + SAPLING_GROW_SECS > u64::MAX { u64::MAX as int } else { planted + SAPLING_GROW_SECS })
}

impl GroveStore {
    /// When the sapling at `c` was planted, if there is one.
    pub closed spec fn planted(self, c: (i32, i32, i32)) -> Option<u64> {
        if exists|i: int| 0 <= i < self.saplings@.len() && spot(#[trigger] self.saplings@[i]) == c {
            Some(self.saplings@[choose|i: int| 0 <= i < self.saplings@.len() && spot(#[trigger] self.saplings@[i]) == c].planted_secs)
        } else {
            None
        }
    }

    /// The invariant: one sapling per position.
    pub closed spec fn wf(self) -> bool {
        forall|i: int, j: int|
            0 <= i < j < self.saplings@.len() ==> spot(#[trigger] self.saplings@[i]) != spot(#[trigger] self.saplings@[j])
    }

    proof fn lemma_planted_at(self, i: int)
        requires
            self.wf(),
            0 <= i < self.saplings@.len(),
        ensures
            self.planted(spot(self.saplings@[i])) == Some(self.saplings@[i].planted_secs),
    {
        let c = spot(self.saplings@[i]);
        assert(exists|i: int| 0 <= i < self.saplings@.len() && spot(#[trigger] self.saplings@[i]) == c);
        let j = choose|j: int| 0 <= j < self.saplings@.len() && spot(#[trigger] self.saplings@[j]) == c;
        if j != i {
            if j < i {
                assert(spot(self.saplings@[j]) != spot(self.saplings@[i]));
            } else {
                assert(spot(self.saplings@[i]) != spot(self.saplings@[j]));
            }
        }
    }

    /// No sapling.
    pub fn new() -> (g: Self)
        ensures
            g.wf(),
            forall|c: (i32, i32, i32)| #[trigger] g.planted(c) is None,
    {
        GroveStore { saplings: Vec::new() }
    }

    fn find(&self, x: i32, y: i32, z: i32) -> (r: Option<usize>)
        ensures
            match r {
                Some(i) => i < self.saplings@.len() && spot(self.saplings@[i as int]) == (x, y, z),
                None => forall|i: int| 0 <= i < self.saplings@.len() ==> spot(#[trigger] self.saplings@[i]) != (x, y, z),
            },
    {
        let mut i: usize = 0;
        while i < self.saplings.len()
            invariant
                i <= self.saplings@.len(),
                forall|j: int| 0 <= j < i ==> spot(#[trigger] self.saplings@[j]) != (x, y, z),
            decreases self.saplings@.len() - i,
        {
            let s = self.saplings[i];
            if s.x == x && s.y == y && s.z == z {
                return Some(i);
            }
            i = i + 1;
        }
        None
    }

    /// Plants a sapling at `(x, y, z)` at `now_secs` (planting again restarts its time).
    pub fn plant(&mut self, x: i32, y: i32, z: i32, now_secs: u64) -> (s: Sapling)
        requires
            old(self).wf(),
        ensures
            final(self).wf(),
            s == (Sapling { x, y, z, planted_secs: now_secs }),
            forall|c: (i32, i32, i32)| #[trigger] final(self).planted(c) == if c == (x, y, z) {
                Some(now_secs)
            } else {
                old(self).planted(c)
            },
    {
        let s = Sapling { x, y, z, planted_secs: now_secs };
        let ghost before = *self;
        let ghost idx: int;
        match self.find(x, y, z) {
            Some(i) => {
                self.saplings.set(i, s);
                proof {
                    idx = i as int;
                }
            },
            None => {
                self.saplings.push(s);
                proof {
                    idx = before.saplings@.len() as int;
                }
            },
        }
        proof {
            let v = self.saplings@;
            let b = before.saplings@;
            assert forall|i: int, j: int| 0 <= i < j < v.len() implies spot(#[trigger] v[i]) != spot(#[trigger] v[j]) by {
                if j < b.len() {
                    assert(spot(v[i]) == spot(b[i]) && spot(v[j]) == spot(b[j]));
                } else {
                    assert(spot(v[i]) == spot(b[i]));
                }
            }
            assert forall|c: (i32, i32, i32)| #[trigger] self.planted(c) == if c == (x, y, z) {
                Some(now_secs)
            } else {
                before.planted(c)
            } by {
                assert(v[idx] == s);
                self.lemma_planted_at(idx);
                if c != (x, y, z) {
                    if exists|i: int| 0 <= i < b.len() && spot(#[trigger] b[i]) == c {
                        let i = choose|i: int| 0 <= i < b.len() && spot(#[trigger] b[i]) == c;
                        before.lemma_planted_at(i);
                        assert(v[i] == b[i]);
                        self.lemma_planted_at(i);
                    }
                    if exists|i: int| 0 <= i < v.len() && spot(#[trigger] v[i]) == c {
                        let i = choose|i: int| 0 <= i < v.len() && spot(#[trigger] v[i]) == c;
                        assert(i != idx);
                        assert(i < b.len() && v[i] == b[i]);
                        assert(spot(b[i]) == c);
                    }
                }
            }
        }
        s
    }

    /// Forgets the sapling at `(x, y, z)` (dug up, or grown).
    pub fn remove(&mut self, x: i32, y: i32, z: i32)
        requires
            old(self).wf(),
        ensures
            final(self).wf(),
            forall|c: (i32, i32, i32)| #[trigger] final(self).planted(c) == if c == (x, y, z) {
                None
            } else {
                old(self).planted(c)
            },
    {
        let ghost before = *self;
        match self.find(x, y, z) {
            None => {},
            Some(i) => {
                self.saplings.remove(i);
            },
        }
        proof {
            let v = self.saplings@;
            let b = before.saplings@;
            if v.len() < b.len() {
                let i = choose|i: int| 0 <= i < b.len() && spot(b[i]) == (x, y, z) && v =~= b.remove(i);
                assert forall|a: int, c: int| 0 <= a < c < v.len() implies spot(#[trigger] v[a]) != spot(#[trigger] v[c]) by {
                    let a2 = if a < i { a } else { a + 1 };
                    let c2 = if c < i { c } else { c + 1 };
                    assert(v[a] == b[a2] && v[c] == b[c2]);
                }
            }
            assert forall|c: (i32, i32, i32)| #[trigger] self.planted(c) == if c == (x, y, z) {
                None
            } else {
                before.planted(c)
            } by {
                if v.len() < b.len() {
                    let i = choose|i: int| 0 <= i < b.len() && spot(b[i]) == (x, y, z) && v =~= b.remove(i);
                    if exists|a: int| 0 <= a < v.len() && spot(#[trigger] v[a]) == c {
                        let a = choose|a: int| 0 <= a < v.len() && spot(#[trigger] v[a]) == c;
                        let a2 = if a < i { a } else { a + 1 };
                        assert(v[a] == b[a2]);
                        self.lemma_planted_at(a);
                        before.lemma_planted_at(a2);
                        if c == (x, y, z) {
                            assert(spot(b[a2]) == spot(b[i]));
                        }
                    }
                    if c != (x, y, z) && exists|a: int| 0 <= a < b.len() && spot(#[trigger] b[a]) == c {
                        let a = choose|a: int| 0 <= a < b.len() && spot(#[trigger] b[a]) == c;
                        assert(a != i);
                        let a2 = if a < i { a } else { a - 1 };
                        assert(v[a2] == b[a]);
                    }
                } else {
                    assert(v == b);
                }
            }
        }
    }

    /// Whether a sapling is planted at `(x, y, z)`.
    pub fn has(&self, x: i32, y: i32, z: i32) -> (b: bool)
        requires
            self.wf(),
        ensures
            b == self.planted((x, y, z)) is Some,
    {
        match self.find(x, y, z) {
            Some(i) => {
                proof {
                    self.lemma_planted_at(i as int);
                }
                true
            },
            None => false,
        }
    }

    /// The positions of every sapling grown by `now_secs` (planted at least
    /// [`SAPLING_GROW_SECS`] before), each once.
    pub fn mature_saplings(&self, now_secs: u64) -> (r: Vec<(i32, i32, i32)>)
        requires
            self.wf(),
        ensures
            r@.no_duplicates(),
            forall|c: (i32, i32, i32)| r@.contains(c) <==> (#[trigger] self.planted(c) matches Some(t) && grown_by(t, now_secs)),
    {
        let mut out: Vec<(i32, i32, i32)> = Vec::new();
        let mut i: usize = 0;
        let ghost v = self.saplings@;
        while i < self.saplings.len()
            invariant
                v == self.saplings@,
                self.wf(),
                i <= v.len(),
                out@.no_duplicates(),
                forall|a: int| 0 <= a < out@.len() ==> exists|q: int| 0 <= q < i && spot(#[trigger] v[q]) == (#[trigger] out@[a]) && grown_by(v[q].planted_secs, now_secs),
                forall|q: int| 0 <= q < i && grown_by((#[trigger] v[q]).planted_secs, now_secs) ==> out@.contains(spot(v[q])),
            decreases v.len() - i,
        {
            let s = self.saplings[i];
            if now_secs >= s.planted_secs.saturating_add(SAPLING_GROW_SECS) {
                let ghost before = out@;
                proof {
                    assert(!before.contains(spot(s))) by {
                        if before.contains(spot(s)) {
                            let a = choose|a: int| 0 <= a < before.len() && before[a] == spot(s);
                            let q = choose|q: int| 0 <= q < i && spot(#[trigger] v[q]) == before[a] && grown_by(v[q].planted_secs, now_secs);
                            assert(spot(v[q]) != spot(v[i as int]));
                        }
                    }
                }
                out.push((s.x, s.y, s.z));
                proof {
                    assert forall|a: int, b: int| 0 <= a < out@.len() && 0 <= b < out@.len() && a != b implies out@[a] != out@[b] by {
                        if a == before.len() {
                            assert(out@[b] == before[b]);
                        } else if b == before.len() {
                            assert(out@[a] == before[a]);
                        } else {
                            assert(out@[a] == before[a] && out@[b] == before[b]);
                        }
                    }
                    assert forall|a: int| 0 <= a < out@.len() implies exists|q: int| 0 <= q < i + 1 && spot(#[trigger] v[q]) == (#[trigger] out@[a]) && grown_by(v[q].planted_secs, now_secs) by {
                        if a < before.len() {
                            assert(out@[a] == before[a]);
                        } else {
                            assert(spot(v[i as int]) == out@[a]);
                        }
                    }
                    assert forall|q: int| 0 <= q < i + 1 && grown_by((#[trigger] v[q]).planted_secs, now_secs) implies out@.contains(spot(v[q])) by {
                        if q < i {
                            let a = choose|a: int| 0 <= a < before.len() && before[a] == spot(v[q]);
                            assert(out@[a] == spot(v[q]));
                        } else {
                            assert(out@[before.len() as int] == spot(v[q]));
                        }
                    }
                }
            }
            i = i + 1;
        }
        proof {
            assert forall|c: (i32, i32, i32)| out@.contains(c) <==> (#[trigger] self.planted(c) matches Some(t) && grown_by(t, now_secs)) by {
                if out@.contains(c) {
                    let a = choose|a: int| 0 <= a < out@.len() && out@[a] == c;
                    let q = choose|q: int| 0 <= q < v.len() && spot(#[trigger] v[q]) == out@[a] && grown_by(v[q].planted_secs, now_secs);
                    self.lemma_planted_at(q);
                }
                if self.planted(c) is Some {
                    let q = choose|q: int| 0 <= q < v.len() && spot(#[trigger] v[q]) == c;
                    self.lemma_planted_at(q);
                }
            }
        }
        out
    }
}

} // verus!
