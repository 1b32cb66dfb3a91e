//! The first invention monument: when a resident invents a skill of her own for the first
//! time, a small monument of a stone-brick pedestal and an aether lamp is raised beside her.

use vstd::prelude::*;
use crate::text::{replace_all, replace_str, views};
use crate::voxel::Block;

verus! {

/// How far from the resident's feet the monument stands.
pub const MONUMENT_ANCHOR_DIST: i32 = 2;

/// The monument standing on the ground just below `(x, y, z)`: a stone-brick pedestal at
/// `(x, y, z)` with an aether lamp on top of it.
pub fn monument_blocks(x: i32, y: i32, z: i32) -> (r: [(i32, i32, i32, Block); 2])
    requires
        y < i32::MAX,
    ensures
        r@ == seq![(x, y, z, Block::StoneBrick), (x, (y + 1) as i32, z, Block::AetherLamp)],
{
    let r = [(x, y, z, Block::StoneBrick), (x, y + 1, z, Block::AetherLamp)];
    assert(r@ =~= seq![(x, y, z, Block::StoneBrick), (x, (y + 1) as i32, z, Block::AetherLamp)]);
    r
}

/// The anchor `MONUMENT_ANCHOR_DIST` away from `(fx, fz)` in direction `d` (east, west,
/// south, north for `d` = 0, 1, 2, 3).
pub open spec fn anchor(fx: int, fz: int, d: int) -> (int, int) {
    if d == 0 {
        (fx + MONUMENT_ANCHOR_DIST, fz)
    } else if d == 1 {
        (fx - MONUMENT_ANCHOR_DIST, fz)
    } else if d == 2 {
        (fx, fz + MONUMENT_ANCHOR_DIST)
    } else {
        (fx, fz - MONUMENT_ANCHOR_DIST)
    }
}

/// The monument's place beside the resident at `(fx, fz)`: direction `pick % 4`.
pub fn pick_anchor(fx: i32, fz: i32, pick: usize) -> (r: (i32, i32))
    requires
        i32::MIN + MONUMENT_ANCHOR_DIST <= fx <= i32::MAX - MONUMENT_ANCHOR_DIST,
        i32::MIN + MONUMENT_ANCHOR_DIST <= fz <= i32::MAX - MONUMENT_ANCHOR_DIST,
    ensures
        (r.0 as int, r.1 as int) == anchor(fx as int, fz as int, (pick % 4) as int),
{
    let d = pick % 4;
    if d == 0 {
        (fx + MONUMENT_ANCHOR_DIST, fz)
    } else if d == 1 {
        (fx - MONUMENT_ANCHOR_DIST, fz)
    } else if d == 2 {
        (fx, fz + MONUMENT_ANCHOR_DIST)
    } else {
        (fx, fz - MONUMENT_ANCHOR_DIST)
    }
}

/// Law: the four anchors around a resident are distinct, and each lies exactly
/// [`MONUMENT_ANCHOR_DIST`] away from her in Manhattan distance.
pub proof fn lemma_anchors_distinct_at_distance(fx: int, fz: int, d1: int, d2: int)
    requires
        0 <= d1 < 4,
        0 <= d2 < 4,
    ensures
        d1 != d2 ==> anchor(fx, fz, d1) != anchor(fx, fz, d2),
        ({
            let (ax, az) = anchor(fx, fz, d1);
            (if ax >= fx { ax - fx } else { fx - ax }) + (if az >= fz { az - fz } else { fz - az })
                == MONUMENT_ANCHOR_DIST
        }),
{
}

/// The three bubbles on raising the monument, with {s} for the skill name.
pub open spec fn milestone_frames() -> Seq<Seq<char>> {
    seq![
        "「{s}」是我自己想出來的！立塊碑，記著這一刻。💡"@,
        "我第一次真的靠自己發明了東西——「{s}」，我要記一輩子。"@,
        "這座碑，是我頭一回自己想通「{s}」的地方。"@,
    ]
}

/// The resident's bubble on raising her monument: frame `pick % 3` naming the skill.
pub fn milestone_say_line(skill_name: &str, pick: usize) -> (r: String)
    ensures
        r@ == replace_all(milestone_frames()[(pick % 3) as int], "{s}"@, skill_name@),
{
    let frames: [&str; 3] = [
        "「{s}」是我自己想出來的！立塊碑，記著這一刻。💡",
        "我第一次真的靠自己發明了東西——「{s}」，我要記一輩子。",
        "這座碑，是我頭一回自己想通「{s}」的地方。",
    ];
    proof {
        assert(views(frames@) =~= milestone_frames());
        assert(views(frames@)[(pick % 3) as int] == frames@[(pick % 3) as int]@);
        reveal_strlit("{s}");
    }
    replace_str(frames[pick % 3], "{s}", skill_name)
}

/// The resident's memory of her first invention, phrased to be kept for life.
pub fn milestone_memory_line(skill_name: &str) -> (r: String)
    ensures
        r@ == "今天，我第一次真的靠自己想通、發明了「"@ + skill_name@ + "」，還在這裡立了一塊碑——這是我一定會記一輩子的一刻，我自己想出來的，誰也拿不走。"@,
{
    let mut s = String::from_str("今天，我第一次真的靠自己想通、發明了「");
    s.append(skill_name);
    s.append("」，還在這裡立了一塊碑——這是我一定會記一輩子的一刻，我自己想出來的，誰也拿不走。");
    s
}

/// The feed line of a resident's first invention and its monument.
pub fn milestone_feed_line(resident_name: &str, skill_name: &str) -> (r: String)
    ensures
        r@ == "💡 "@ + resident_name@ + " 第一次靠自己發明了「"@ + skill_name@ + "」，就地立起一座發明之光碑！"@,
{
    let mut s = String::from_str("💡 ");
    s.append(resident_name);
    s.append(" 第一次靠自己發明了「");
    s.append(skill_name);
    s.append("」，就地立起一座發明之光碑！");
    s
}

} // verus!
