//! Player commands turned into resident tasks: recognising levelling, paving
//! and following requests, the replies, paving provisions, and the split of a
//! large area among several residents.

use vstd::prelude::*;
use std::collections::HashMap;
use crate::text::{contains_any, contains_any_of, seq_contains, views, str_contains, cat};
use crate::voxel::{Block, GatherResource, block_id, resource_of, resource_block, basic_recipe, basic_recipe_for};

pub mod site;

pub use site::{DirectedTask, level_column, pave_column, ground_top, quarry_step, level_step, level_step_capped, pave_step_capped};

verus! {

/// Radius of a single levelling task: (2r+1)² columns.
pub const LEVEL_RADIUS: i32 = 4;
/// Columns one resident levels per tick.
pub const LEVEL_COLUMNS_PER_STEP: usize = 5;
/// Radius of each sub-area in a coordinated levelling task.
pub const COORD_CELL_RADIUS: i32 = 6;
/// Most residents one coordinated task gathers (leader included).
pub const COORD_MAX_WORKERS: usize = 4;
/// Columns all levelling residents together may process per tick.
pub const MAX_LEVEL_COLUMNS_PER_TICK: usize = 20;
/// Radius of a single paving task.
pub const PAVE_RADIUS: i32 = 3;
/// Radius of each sub-area in a coordinated paving task.
pub const PAVE_COORD_CELL_RADIUS: i32 = 4;
/// Steps of a staircase quarry.
pub const QUARRY_DEPTH: i32 = 12;
/// Quarry cells cleared per tick.
pub const QUARRY_CELLS_PER_STEP: usize = 4;
/// Most quarries one paving task may dig.
pub const QUARRY_MAX_WELLS: u32 = 20;
/// How far above the target height levelling clears.
pub const LEVEL_MAX_UP: i32 = 20;
/// How far below the target height levelling fills.
pub const LEVEL_MAX_DOWN: i32 = 20;

/// Words that ask a resident to level a patch of ground.
pub open spec fn level_tokens() -> Seq<Seq<char>> {
    seq!["整平"@, "整地"@, "推平"@, "剷平"@, "鏟平"@, "夷平"@, "弄平"@, "挖平"@, "填平"@, "壓平"@, "弄成平地"@, "推成平地"@, "清出一塊地"@, "清一塊地"@, "清出塊地"@, "整出一塊平地"@, "鏟一塊地"@, "剷一塊地"@]
}

/// Whether the player's words ask a resident to level ground: any levelling word occurs.
pub fn detect_level_command(text: &str) -> (b: bool)
    ensures
        b == contains_any(text@, level_tokens()),
{
    let words: [&str; 18] = ["整平", "整地", "推平", "剷平", "鏟平", "夷平", "弄平", "挖平", "填平", "壓平", "弄成平地", "推成平地", "清出一塊地", "清一塊地", "清出塊地", "整出一塊平地", "鏟一塊地", "剷一塊地"];
    proof {
        assert(views(words@) =~= level_tokens());
    }
    contains_any_of(text, &words)
}

/// Words hinting that the requested area is more than one resident can handle.
pub open spec fn oversize_hints() -> Seq<Seq<char>> {
    seq!["100"@, "百格"@, "大片"@, "大範圍"@, "整片"@, "整塊"@, "一大片"@, "一整片"@, "全部的地"@, "所有的地"@, "這一帶"@, "附近全"@, "整座"@, "整個世界"@]
}

/// Whether a levelling request is large-scale: any oversize hint occurs.
pub fn is_oversized_level(text: &str) -> (b: bool)
    ensures
        b == contains_any(text@, oversize_hints()),
{
    let words: [&str; 14] = ["100", "百格", "大片", "大範圍", "整片", "整塊", "一大片", "一整片", "全部的地", "所有的地", "這一帶", "附近全", "整座", "整個世界"];
    proof {
        assert(views(words@) =~= oversize_hints());
    }
    contains_any_of(text, &words)
}

/// Words hinting at a world-scale request that not even the whole village could do.
pub open spec fn absurd_hints() -> Seq<Seq<char>> {
    seq!["整個世界"@, "全世界"@, "整顆星球"@, "整片大陸"@, "所有的地"@, "全部的地"@, "整座星球"@]
}

/// Whether a levelling request is world-scale: any absurd hint occurs.
pub fn is_absurd_level(text: &str) -> (b: bool)
    ensures
        b == contains_any(text@, absurd_hints()),
{
    let words: [&str; 7] = ["整個世界", "全世界", "整顆星球", "整片大陸", "所有的地", "全部的地", "整座星球"];
    proof {
        assert(views(words@) =~= absurd_hints());
    }
    contains_any_of(text, &words)
}

/// The replies of a resident who agrees to level a patch of ground.
pub open spec fn accept_pool() -> Seq<Seq<char>> {
    seq!["好，我這就過去把那塊地整平，會花點時間喔～"@, "交給我吧！我去把那塊地弄平，稍等我一下下～"@, "沒問題，我這就動身去整那塊地，整完再跟你說！"@, "好呀，我走過去把它剷平、填平到一樣高，做起來囉～"@]
}

/// The resident's reply when agreeing to level ground, chosen by `pick` (the name does not change it).
pub fn accept_line(name: &str, pick: usize) -> (r: String)
    ensures
        r@ == accept_pool()[(pick % 4) as int],
{
    let pool: [&str; 4] = ["好，我這就過去把那塊地整平，會花點時間喔～", "交給我吧！我去把那塊地弄平，稍等我一下下～", "沒問題，我這就動身去整那塊地，整完再跟你說！", "好呀，我走過去把它剷平、填平到一樣高，做起來囉～"];
    proof {
        assert(views(pool@) =~= accept_pool());
    }
    String::from_str(pool[pick % 4])
}

/// The replies of a resident who rallies the others for a large area.
pub open spec fn rally_pool() -> Seq<Seq<char>> {
    seq!["這麼大一片，我一個人可不行——我去把大家找來，一起動手！"@, "哇，這範圍好大！我一個人整不完，我這就去號召大家一起來～"@, "這片地太大啦，光靠我不夠……等我一下，我去叫夥伴們一起整！"@, "一個人可搞不定這麼大一片！我去揪大家，一起把它整平～"@]
}

/// The resident's call to gather everyone for a large area, chosen by `pick`.
pub fn rally_line(name: &str, pick: usize) -> (r: String)
    ensures
        r@ == rally_pool()[(pick % 4) as int],
{
    let pool: [&str; 4] = ["這麼大一片，我一個人可不行——我去把大家找來，一起動手！", "哇，這範圍好大！我一個人整不完，我這就去號召大家一起來～", "這片地太大啦，光靠我不夠……等我一下，我去叫夥伴們一起整！", "一個人可搞不定這麼大一片！我去揪大家，一起把它整平～"];
    proof {
        assert(views(pool@) =~= rally_pool());
    }
    String::from_str(pool[pick % 4])
}

/// Explicit paving verbs (never a bare 鋪, which also appears in nouns).
pub open spec fn pave_verb_tokens() -> Seq<Seq<char>> {
    seq!["鋪成"@, "鋪上"@, "鋪個"@, "鋪一"@, "鋪滿"@, "鋪好"@, "鋪出"@, "鋪點"@, "鋪地"@, "鋪路"@, "幫我鋪"@, "舖成"@, "舖上"@, "舖滿"@]
}

/// Action hints that turn a material+地 compound into a request.
pub open spec fn pave_compound_hints() -> Seq<Seq<char>> {
    seq!["做"@, "蓋"@, "弄"@, "幫"@, "來"@, "整"@, "建"@, "要"@, "給我"@, "如何"@, "怎麼樣"@, "好不好"@]
}

/// Words asking a resident to follow.
pub open spec fn follow_tokens() -> Seq<Seq<char>> {
    seq!["跟我來"@, "跟我走"@, "跟著我"@, "跟着我"@, "跟上我"@, "陪我去"@, "陪我走"@]
}

/// Whether the words ask the resident to follow the player.
pub fn detect_follow_command(text: &str) -> (b: bool)
    ensures
        b == contains_any(text@, follow_tokens()),
{
    let words: [&str; 7] = ["跟我來", "跟我走", "跟著我", "跟着我", "跟上我", "陪我去", "陪我走"];
    proof {
        assert(views(words@) =~= follow_tokens());
    }
    contains_any_of(text, &words)
}

/// Words asking a resident to stop following.
pub open spec fn follow_stop_tokens() -> Seq<Seq<char>> {
    seq!["別跟了"@, "别跟了"@, "不用跟了"@, "不用跟著我"@, "不用跟着我"@, "留在這裡"@, "留在这里"@, "你留下"@]
}

/// Whether the words ask the resident to stop following.
pub fn detect_follow_stop(text: &str) -> (b: bool)
    ensures
        b == contains_any(text@, follow_stop_tokens()),
{
    let words: [&str; 8] = ["別跟了", "别跟了", "不用跟了", "不用跟著我", "不用跟着我", "留在這裡", "留在这里", "你留下"];
    proof {
        assert(views(words@) =~= follow_stop_tokens());
    }
    contains_any_of(text, &words)
}

/// Replies when agreeing to follow.
pub open spec fn follow_accept_pool() -> Seq<Seq<char>> {
    seq!["好呀，我跟著你走～"@, "沒問題，走吧，我跟上！"@, "嗯！我跟在你身邊。"@, "好，我陪你去看看～"@]
}

/// The reply when agreeing to follow, chosen by `pick`.
pub fn follow_accept_line(pick: usize) -> (r: String)
    ensures
        r@ == follow_accept_pool()[(pick % 4) as int],
{
    let pool: [&str; 4] = ["好呀，我跟著你走～", "沒問題，走吧，我跟上！", "嗯！我跟在你身邊。", "好，我陪你去看看～"];
    proof {
        assert(views(pool@) =~= follow_accept_pool());
    }
    String::from_str(pool[pick % 4])
}

/// Replies when asked to stop following.
pub open spec fn follow_stop_pool() -> Seq<Seq<char>> {
    seq!["好，我留在這裡～"@, "了解，我先待著！"@, "好的，你去忙吧，我在這裡等。"@]
}

/// The reply when asked to stop following, chosen by `pick`.
pub fn follow_stop_line(pick: usize) -> (r: String)
    ensures
        r@ == follow_stop_pool()[(pick % 3) as int],
{
    let pool: [&str; 3] = ["好，我留在這裡～", "了解，我先待著！", "好的，你去忙吧，我在這裡等。"];
    proof {
        assert(views(pool@) =~= follow_stop_pool());
    }
    String::from_str(pool[pick % 3])
}

/// Replies when following times out.
pub open spec fn follow_timeout_pool() -> Seq<Seq<char>> {
    seq!["我先回去忙自己的事囉，下次再陪你走～"@, "跟了你好一段路了，我先回家一趟！"@, "先這樣吧，有需要再叫我～"@]
}

/// The resident's own words when following runs out of time, chosen by `pick`.
pub fn follow_timeout_line(pick: usize) -> (r: String)
    ensures
        r@ == follow_timeout_pool()[(pick % 3) as int],
{
    let pool: [&str; 3] = ["我先回去忙自己的事囉，下次再陪你走～", "跟了你好一段路了，我先回家一趟！", "先這樣吧，有需要再叫我～"];
    proof {
        assert(views(pool@) =~= follow_timeout_pool());
    }
    String::from_str(pool[pick % 3])
}

/// The spoken words of the paving materials, longer words before the shorter ones they contain.
pub open spec fn pave_words() -> Seq<Seq<char>> {
    seq!["石磚"@, "石板"@, "木地板"@, "木板"@, "玻璃"@, "石頭"@, "石塊"@, "沙子"@, "細沙"@, "泥土"@]
}

/// The block each paving word stands for, row by row with [`pave_words`].
pub open spec fn pave_blocks() -> Seq<Block> {
    seq![
        Block::StoneBrick,
        Block::StoneBrick,
        Block::Plank,
        Block::Plank,
        Block::Glass,
        Block::Stone,
        Block::Stone,
        Block::Sand,
        Block::Sand,
        Block::Dirt,
    ]
}

fn pave_word_list() -> (r: [&'static str; 10])
    ensures
        views(r@) == pave_words(),
{
    let r = ["石磚", "石板", "木地板", "木板", "玻璃", "石頭", "石塊", "沙子", "細沙", "泥土"];
    assert(views(r@) =~= pave_words());
    r
}

fn pave_block_list() -> (r: [Block; 10])
    ensures
        r@ == pave_blocks(),
{
    let r = [
        Block::StoneBrick,
        Block::StoneBrick,
        Block::Plank,
        Block::Plank,
        Block::Glass,
        Block::Stone,
        Block::Stone,
        Block::Sand,
        Block::Sand,
        Block::Dirt,
    ];
    assert(r@ =~= pave_blocks());
    r
}

/// The first material in table order whose word occurs in `text`, looking from row `i` on.
pub open spec fn first_material_from(text: Seq<char>, i: int) -> Option<Block>
    decreases 10 - i,
{
    if i < 0 || i >= 10 {
        None
    } else if seq_contains(text, pave_words()[i]) {
        Some(pave_blocks()[i])
    } else {
        first_material_from(text, i + 1)
    }
}

/// The paving material named in `text` (the earliest table row whose word occurs).
pub fn pave_material_in(text: &str) -> (r: Option<Block>)
    ensures
        r == first_material_from(text@, 0),
{
    let words = pave_word_list();
    let blocks = pave_block_list();
    let mut i: usize = 0;
    while i < 10
        invariant
            i <= 10,
            first_material_from(text@, 0) == first_material_from(text@, i as int),
            views(words@) == pave_words(),
            blocks@ == pave_blocks(),
        decreases 10 - i,
    {
        assert(views(words@)[i as int] == words@[i as int]@);
        if str_contains(text, words[i]) {
            return Some(blocks[i]);
        }
        i = i + 1;
    }
    None
}

/// The display name of a paving material.
pub open spec fn material_name(mat: Block) -> Seq<char> {
    match mat {
        Block::StoneBrick => "石磚"@,
        Block::Plank => "木板"@,
        Block::Glass => "玻璃"@,
        Block::Stone => "石頭"@,
        Block::Sand => "沙子"@,
        Block::Dirt => "泥土"@,
        _ => "材料"@,
    }
}

/// The display name of a paving material (a generic word for anything else).
pub fn pave_material_name(mat: Block) -> (r: &'static str)
    ensures
        r@ == material_name(mat),
{
    match mat {
        Block::StoneBrick => "石磚",
        Block::Plank => "木板",
        Block::Glass => "玻璃",
        Block::Stone => "石頭",
        Block::Sand => "沙子",
        Block::Dirt => "泥土",
        _ => "材料",
    }
}

/// Whether `text` holds a material+地 compound for a table row of material `mat`.
pub open spec fn has_material_compound(text: Seq<char>, mat: Block) -> bool {
    exists|i: int|
        0 <= i < 10 && #[trigger] pave_blocks()[i] == mat && seq_contains(
            text,
            pave_words()[i] + "地"@,
        )
}

/// What a paving request in `text` asks for: the named material, when a paving verb occurs,
/// or when a material+地 compound occurs together with an action hint.
pub open spec fn pave_command(text: Seq<char>) -> Option<Block> {
    match first_material_from(text, 0) {
        None => None,
        Some(mat) => if contains_any(text, pave_verb_tokens()) {
            Some(mat)
        } else if has_material_compound(text, mat) && contains_any(text, pave_compound_hints()) {
            Some(mat)
        } else {
            None
        },
    }
}

fn has_material_compound_exec(text: &str, mat: Block) -> (b: bool)
    ensures
        b == has_material_compound(text@, mat),
{
    let words = pave_word_list();
    let blocks = pave_block_list();
    let mut i: usize = 0;
    while i < 10
        invariant
            i <= 10,
            views(words@) == pave_words(),
            blocks@ == pave_blocks(),
            forall|k: int|
                0 <= k < i ==> !(#[trigger] pave_blocks()[k] == mat && seq_contains(
                    text@,
                    pave_words()[k] + "地"@,
                )),
        decreases 10 - i,
    {
        assert(views(words@)[i as int] == words@[i as int]@);
        if blocks[i] == mat {
            let compound = cat(words[i], "地");
            if str_contains(text, compound.as_str()) {
                assert(pave_blocks()[i as int] == mat);
                return true;
            }
        }
        i = i + 1;
    }
    false
}

/// Whether the player's words ask to pave the ground, and with which material.
pub fn detect_pave_command(text: &str) -> (r: Option<Block>)
    ensures
        r == pave_command(text@),
{
    let mat = match pave_material_in(text) {
        Some(m) => m,
        None => return None,
    };
    let verbs: [&str; 14] = ["鋪成", "鋪上", "鋪個", "鋪一", "鋪滿", "鋪好", "鋪出", "鋪點", "鋪地", "鋪路", "幫我鋪", "舖成", "舖上", "舖滿"];
    proof {
        assert(views(verbs@) =~= pave_verb_tokens());
    }
    if contains_any_of(text, &verbs) {
        return Some(mat);
    }
    let hints: [&str; 12] = ["做", "蓋", "弄", "幫", "來", "整", "建", "要", "給我", "如何", "怎麼樣", "好不好"];
    proof {
        assert(views(hints@) =~= pave_compound_hints());
    }
    if has_material_compound_exec(text, mat) && contains_any_of(text, &hints) {
        return Some(mat);
    }
    None
}

/// How a paving material is provided: the raw resource gathered, the basic recipe
/// (ingredients used, items made) when crafting is needed, and whether the raw
/// resource can be quarried underground.
#[derive(Clone, Copy, Debug, PartialEq, Eq)]
pub struct PaveProvision {
    pub raw: GatherResource,
    pub craft: Option<(u32, u32)>,
    pub quarryable: bool,
}

/// The provision of a paving material: gathered directly when it is itself a raw resource,
/// else made from the single-ingredient basic recipe whose ingredient is a raw resource.
pub open spec fn provision(mat: Block) -> Option<PaveProvision> {
    match resource_of(mat) {
        Some(raw) => Some(PaveProvision {
            raw,
            craft: None,
            quarryable: mat == Block::Stone || mat == Block::Dirt,
        }),
        None => match basic_recipe(mat) {
            None => None,
            Some(rc) => match resource_of(rc.0) {
                None => None,
                Some(raw) => Some(PaveProvision {
                    raw,
                    craft: Some((rc.1, rc.2)),
                    quarryable: raw == GatherResource::Stone || raw == GatherResource::Dirt,
                }),
            },
        },
    }
}

/// The provision of a paving material (`None` when it cannot be provided).
pub fn pave_provision(mat: Block) -> (r: Option<PaveProvision>)
    ensures
        r == provision(mat),
{
    if let Some(raw) = GatherResource::from_block(mat) {
        let quarryable = mat == Block::Stone || mat == Block::Dirt;
        return Some(PaveProvision { raw, craft: None, quarryable });
    }
    let (input, in_qty, out_qty) = match basic_recipe_for(mat) {
        Some(rc) => rc,
        None => return None,
    };
    let raw = match GatherResource::from_block(input) {
        Some(r) => r,
        None => return None,
    };
    let quarryable = raw == GatherResource::Stone || raw == GatherResource::Dirt;
    Some(PaveProvision { raw, craft: Some((in_qty, out_qty)), quarryable })
}

/// A bag's count of an item (absent items count zero).
pub open spec fn bag_count(bag: Map<u8, u32>, id: u8) -> int {
    if bag.contains_key(id) {
        bag[id] as int
    } else {
        0
    }
}

/// Crafting rounds from `mat` made items and `raw` ingredients: a round runs while fewer than
/// `need` items are held and at least `q` ingredients remain; each uses `q` and makes `o`.
/// The result is (items held, ingredients left, items made).
pub open spec fn craft_rounds(mat: int, raw: int, need: int, q: int, o: int) -> (int, int, int)
    decreases raw,
{
    if mat >= need || raw < q || q <= 0 {
        (mat, raw, 0)
    } else {
        let t = craft_rounds(mat + o, raw - q, need, q, o);
        (t.0, t.1, t.2 + o)
    }
}

proof fn lemma_craft_rounds_bounds(mat: int, raw: int, need: int, q: int, o: int)
    requires
        0 < o,
        0 <= raw,
        0 <= mat,
    ensures
        craft_rounds(mat, raw, need, q, o).0 == mat + craft_rounds(mat, raw, need, q, o).2,
        0 <= craft_rounds(mat, raw, need, q, o).1 <= raw,
        0 <= craft_rounds(mat, raw, need, q, o).2,
        craft_rounds(mat, raw, need, q, o).2 == 0 ==> craft_rounds(mat, raw, need, q, o).1 == raw,
        mat < need ==> craft_rounds(mat, raw, need, q, o).0 < need + o,
        mat >= need ==> craft_rounds(mat, raw, need, q, o).0 == mat,
    decreases raw,
{
    if mat >= need || raw < q || q <= 0 {
    } else {
        lemma_craft_rounds_bounds(mat + o, raw - q, need, q, o);
    }
}

/// Crafts `mat` from the bag's raw ingredients until at least `need` are held or the
/// ingredients run short; returns how many items were made (0 for materials that need no
/// crafting). The bag loses `q` ingredients and gains `o` items per round. The items held
/// at the end must fit a `u32`.
pub fn craft_toward(bag: &mut HashMap<u8, u32>, mat: Block, need: u32) -> (made: u32)
    requires
        match provision(mat) {
            Some(PaveProvision { raw, craft: Some((q, o)), quarryable }) => craft_rounds(
                bag_count(old(bag)@, block_id(mat)),
                bag_count(old(bag)@, block_id(resource_block(raw))),
                need as int,
                q as int,
                o as int,
            ).0 <= u32::MAX,
            _ => true,
        },
    ensures
        match provision(mat) {
            Some(PaveProvision { raw, craft: Some((q, o)), quarryable }) => {
                let mid = block_id(mat);
                let rid = block_id(resource_block(raw));
                let res = craft_rounds(
                    bag_count(old(bag)@, mid),
                    bag_count(old(bag)@, rid),
                    need as int,
                    q as int,
                    o as int,
                );
                &&& made == res.2
                &&& res.2 == 0 ==> final(bag)@ == old(bag)@
                &&& res.2 > 0 ==> final(bag)@ == old(bag)@.insert(rid, res.1 as u32).insert(mid, res.0 as u32)
            },
            _ => made == 0 && final(bag)@ == old(bag)@,
        },
{
    let (in_qty, out_qty, raw) = match pave_provision(mat) {
        Some(PaveProvision { raw, craft: Some((q, o)), quarryable: _ }) => (q, o, raw),
        _ => return 0,
    };
    let mid = mat.id();
    let rid = raw.block_id();
    let ghost m0 = bag_count(bag@, mid);
    let ghost r0 = bag_count(bag@, rid);
    let ghost b0 = bag@;
    let ghost res = craft_rounds(m0, r0, need as int, in_qty as int, out_qty as int);
    proof {
        lemma_craft_rounds_bounds(m0, r0, need as int, in_qty as int, out_qty as int);
        assert(mid != rid);
        assert(in_qty == 2 && 1 <= out_qty <= 4);
    }
    let mut made: u32 = 0;
    loop
        invariant
            mid != rid,
            in_qty == 2,
            1 <= out_qty <= 4,
            0 <= m0,
            made as int + m0 == bag_count(bag@, mid),
            res.0 <= u32::MAX,
            res == craft_rounds(m0, r0, need as int, in_qty as int, out_qty as int),
            craft_rounds(bag_count(bag@, mid), bag_count(bag@, rid), need as int, in_qty as int, out_qty as int).0 == res.0,
            craft_rounds(bag_count(bag@, mid), bag_count(bag@, rid), need as int, in_qty as int, out_qty as int).1 == res.1,
            craft_rounds(bag_count(bag@, mid), bag_count(bag@, rid), need as int, in_qty as int, out_qty as int).2 + made == res.2,
            made == 0 ==> bag@ == b0,
            made > 0 ==> bag@ == b0.insert(rid, bag_count(bag@, rid) as u32).insert(mid, bag_count(bag@, mid) as u32),
            made > 0 ==> bag@.contains_key(rid) && bag@.contains_key(mid),
        ensures
            made == res.2,
            res.2 == 0 ==> bag@ == b0,
            res.2 > 0 ==> bag@ == b0.insert(rid, res.1 as u32).insert(mid, res.0 as u32),
        decreases bag_count(bag@, rid),
    {
        let have_mat: u32 = match bag.get(&mid) {
            Some(v) => *v,
            None => 0,
        };
        let have_raw: u32 = match bag.get(&rid) {
            Some(v) => *v,
            None => 0,
        };
        proof {
            lemma_craft_rounds_bounds(have_mat as int, have_raw as int, need as int, in_qty as int, out_qty as int);
        }
        if have_mat >= need || have_raw < in_qty {
            break;
        }
        proof {
            assert(have_mat as int == bag_count(bag@, mid));
            assert(have_raw as int == bag_count(bag@, rid));
            lemma_craft_rounds_bounds(
                have_mat + out_qty,
                have_raw - in_qty,
                need as int,
                in_qty as int,
                out_qty as int,
            );
            assert(have_mat + out_qty <= res.0);
        }
        bag.insert(rid, have_raw - in_qty);
        bag.insert(mid, have_mat + out_qty);
        made = made + out_qty;
        proof {
            assert(bag@ == b0.insert(rid, (have_raw - in_qty) as u32).insert(mid, (have_mat + out_qty) as u32));
        }
    }
    made
}

/// The replies when agreeing to pave with the named material.
pub open spec fn pave_accept_pool(mat_name: Seq<char>) -> Seq<Seq<char>> {
    seq![
        "好！我先去備"@ + mat_name + "，備好就把這塊地鋪起來——要花點時間喔～"@,
        "交給我！我先採料合"@ + mat_name + "，然後把這裡鋪好，稍等我～"@,
        "沒問題，我這就備料，把這塊地鋪成"@ + mat_name + "的！"@,
    ]
}

/// The reply when agreeing to pave (honest that materials come first), chosen by `pick`.
pub fn pave_accept_line(mat_name: &str, pick: usize) -> (r: String)
    ensures
        r@ == pave_accept_pool(mat_name@)[(pick % 3) as int],
{
    let k = pick % 3;
    if k == 0 {
        crate::text::cat3("好！我先去備", mat_name, "，備好就把這塊地鋪起來——要花點時間喔～")
    } else if k == 1 {
        crate::text::cat3("交給我！我先採料合", mat_name, "，然後把這裡鋪好，稍等我～")
    } else {
        crate::text::cat3("沒問題，我這就備料，把這塊地鋪成", mat_name, "的！")
    }
}

/// The replies when rallying everyone to pave a large area, one patch at a time.
pub open spec fn pave_rally_pool(mat_name: Seq<char>) -> Seq<Seq<char>> {
    seq![
        "這麼大一片一口氣鋪不完——我去找大家，先從一塊開始鋪"@ + mat_name + "，一塊一塊來！"@,
        "哇，這範圍好大！我去號召大家各自備料，先合力鋪好一塊"@ + mat_name + "地，再慢慢擴～"@,
        "一個人可鋪不了這麼大！我去揪夥伴，大家先從一塊"@ + mat_name + "地鋪起，一塊一塊來～"@,
    ]
}

/// The call to pave a large area together, starting with one patch, chosen by `pick`.
pub fn pave_rally_line(mat_name: &str, pick: usize) -> (r: String)
    ensures
        r@ == pave_rally_pool(mat_name@)[(pick % 3) as int],
{
    let k = pick % 3;
    if k == 0 {
        crate::text::cat3("這麼大一片一口氣鋪不完——我去找大家，先從一塊開始鋪", mat_name, "，一塊一塊來！")
    } else if k == 1 {
        crate::text::cat3("哇，這範圍好大！我去號召大家各自備料，先合力鋪好一塊", mat_name, "地，再慢慢擴～")
    } else {
        crate::text::cat3("一個人可鋪不了這麼大！我去揪夥伴，大家先從一塊", mat_name, "地鋪起，一塊一塊來～")
    }
}

/// A staircase quarry in progress: the cells to clear, shallow to deep, and the next index.
#[derive(Debug, PartialEq)]
pub struct QuarryDig {
    pub cells: Vec<(i32, i32, i32)>,
    pub idx: usize,
}

impl Clone for QuarryDig {
    fn clone(&self) -> (r: Self)
        ensures
            r.cells@ == self.cells@,
            r.idx == self.idx,
    {
        let mut cells: Vec<(i32, i32, i32)> = Vec::new();
        let mut i: usize = 0;
        while i < self.cells.len()
            invariant
                i <= self.cells@.len(),
                cells@ == self.cells@.subrange(0, i as int),
            decreases self.cells@.len() - i,
        {
            cells.push(self.cells[i]);
            i = i + 1;
            proof {
                assert(cells@ =~= self.cells@.subrange(0, i as int));
            }
        }
        proof {
            assert(self.cells@.subrange(0, i as int) =~= self.cells@);
        }
        QuarryDig { cells, idx: self.idx }
    }
}

impl QuarryDig {
    /// Whether every cell has been handled.
    pub fn is_done(&self) -> (b: bool)
        ensures
            b == (self.idx >= self.cells@.len()),
    {
        self.idx >= self.cells.len()
    }
}

/// The grid (columns, rows) of sub-areas for a number of workers.
pub open spec fn grid(worker_count: int) -> (i32, i32) {
    if worker_count <= 1 {
        (1, 1)
    } else if worker_count == 2 {
        (2, 1)
    } else if worker_count == 3 {
        (3, 1)
    } else {
        (2, 2)
    }
}

/// The grid (columns, rows) of sub-areas for a number of workers: 1×1, 2×1, 3×1, then 2×2.
pub fn grid_dims(worker_count: usize) -> (r: (i32, i32))
    ensures
        r == grid(worker_count as int),
{
    match worker_count {
        0 | 1 => (1, 1),
        2 => (2, 1),
        3 => (3, 1),
        _ => (2, 2),
    }
}

/// Division by two rounding toward zero (as machine integer division does).
pub open spec fn half_toward_zero(x: int) -> int {
    if x >= 0 {
        x / 2
    } else {
        -((-x) / 2)
    }
}

/// The centre of sub-area `k` (column-major over the grid) of a large area centred on (cx, cz).
pub open spec fn sub_cell_center(cx: int, cz: int, worker_count: int, cell_radius: int, k: int) -> (int, int) {
    let (cols, rows) = grid(worker_count);
    let cell = cell_radius * 2 + 1;
    let min_x = cx - half_toward_zero(cols * cell);
    let min_z = cz - half_toward_zero(rows * cell);
    (min_x + (k / rows as int) * cell + cell_radius, min_z + (k % rows as int) * cell + cell_radius)
}

/// Whether a value fits an `i32`.
pub open spec fn fits_i32(x: int) -> bool {
    i32::MIN <= x <= i32::MAX
}

/// The corner of one grid line of a split: start plus `i` cells, and its centre.
pub open spec fn line_fits(min: int, cell: int, cell_radius: int, i: int) -> bool {
    fits_i32(i * cell) && fits_i32(min + i * cell) && fits_i32(min + i * cell + cell_radius)
}

/// Every intermediate value of splitting the area centred on (cx, cz) fits an `i32`: the
/// side, the area's extent and corner, and each centre computed along the way.
pub open spec fn split_fits(cx: int, cz: int, worker_count: int, cell_radius: int) -> bool {
    let (cols, rows) = grid(worker_count);
    let cell = cell_radius * 2 + 1;
    let min_x = cx - half_toward_zero(cols * cell);
    let min_z = cz - half_toward_zero(rows * cell);
    &&& fits_i32(cell_radius * 2)
    &&& fits_i32(cell)
    &&& fits_i32(cols * cell)
    &&& fits_i32(rows * cell)
    &&& fits_i32(min_x)
    &&& fits_i32(min_z)
    &&& forall|i: int| 0 <= i < cols ==> #[trigger] line_fits(min_x, cell, cell_radius, i)
    &&& forall|j: int| 0 <= j < rows ==> #[trigger] line_fits(min_z, cell, cell_radius, j)
}

/// How many sub-areas a split into `worker_count` shares yields.
pub open spec fn sub_cell_count(worker_count: int) -> int {
    let (cols, rows) = grid(worker_count);
    let n = cols * rows;
    let m = if worker_count < 1 { 1 } else { worker_count };
    if n < m { n as int } else { m }
}

/// The centres of the sub-areas of a coordinated levelling task (default sub-area radius).
pub fn partition_sub_cells(cx: i32, cz: i32, worker_count: usize) -> (r: Vec<(i32, i32)>)
    requires
        split_fits(cx as int, cz as int, worker_count as int, COORD_CELL_RADIUS as int),
    ensures
        r@.len() == sub_cell_count(worker_count as int),
        forall|k: int|
            0 <= k < r@.len() ==> (r@[k].0 as int, r@[k].1 as int) == sub_cell_center(
                cx as int,
                cz as int,
                worker_count as int,
                COORD_CELL_RADIUS as int,
                k,
            ),
{
    partition_sub_cells_r(cx, cz, worker_count, COORD_CELL_RADIUS)
}

/// The centres of the sub-areas that split a large area centred on (cx, cz) among
/// `worker_count` residents: a grid of squares of side 2·`cell_radius`+1 laid edge to edge
/// around the centre, listed column by column, cut to the number of workers.
pub fn partition_sub_cells_r(cx: i32, cz: i32, worker_count: usize, cell_radius: i32) -> (r: Vec<(i32, i32)>)
    requires
        split_fits(cx as int, cz as int, worker_count as int, cell_radius as int),
    ensures
        r@.len() == sub_cell_count(worker_count as int),
        forall|k: int|
            0 <= k < r@.len() ==> (r@[k].0 as int, r@[k].1 as int) == sub_cell_center(
                cx as int,
                cz as int,
                worker_count as int,
                cell_radius as int,
                k,
            ),
{
    let (cols, rows) = grid_dims(worker_count);
    let cell = cell_radius * 2 + 1;
    let min_x = cx - (cols * cell) / 2;
    let min_z = cz - (rows * cell) / 2;
    let limit: usize = if worker_count < 1 { 1 } else { worker_count };
    let mut out: Vec<(i32, i32)> = Vec::new();
    let mut i: i32 = 0;
    while i < cols
        invariant
            (cols, rows) == grid(worker_count as int),
            cell == cell_radius * 2 + 1,
            min_x == cx - half_toward_zero(cols * cell),
            min_z == cz - half_toward_zero(rows * cell),
            split_fits(cx as int, cz as int, worker_count as int, cell_radius as int),
            0 <= i <= cols,
            out@.len() == i * rows,
            forall|k: int|
                0 <= k < out@.len() ==> (out@[k].0 as int, out@[k].1 as int) == sub_cell_center(
                    cx as int,
                    cz as int,
                    worker_count as int,
                    cell_radius as int,
                    k,
                ),
        decreases cols - i,
    {
        let mut j: i32 = 0;
        while j < rows
            invariant
                (cols, rows) == grid(worker_count as int),
                cell == cell_radius * 2 + 1,
                min_x == cx - half_toward_zero(cols * cell),
                min_z == cz - half_toward_zero(rows * cell),
                split_fits(cx as int, cz as int, worker_count as int, cell_radius as int),
                0 <= i < cols,
                0 <= j <= rows,
                out@.len() == i * rows + j,
                forall|k: int|
                    0 <= k < out@.len() ==> (out@[k].0 as int, out@[k].1 as int) == sub_cell_center(
                        cx as int,
                        cz as int,
                        worker_count as int,
                        cell_radius as int,
                        k,
                    ),
            decreases rows - j,
        {
            proof {
                assert(line_fits(min_x as int, cell as int, cell_radius as int, i as int));
                assert(line_fits(min_z as int, cell as int, cell_radius as int, j as int));
            }
            let scx = min_x + i * cell + cell_radius;
            let scz = min_z + j * cell + cell_radius;
            proof {
                let k = i * rows + j;
                assert(k / rows as int == i as int) by (nonlinear_arith)
                    requires k == i * rows + j, 0 <= j < rows, 0 <= i;
                assert(k % rows as int == j as int) by (nonlinear_arith)
                    requires k == i * rows + j, 0 <= j < rows, 0 <= i;
            }
            out.push((scx, scz));
            j = j + 1;
        }
        i = i + 1;
    }
    if out.len() > limit {
        out.truncate(limit);
    }
    out
}

/// Two different sub-areas of one split never overlap: their centres lie at least a full
/// side (2·`cell_radius`+1) apart along one axis, so the squares of radius `cell_radius`
/// around them share no column.
#[verifier::spinoff_prover]
pub proof fn lemma_sub_cells_disjoint(cx: int, cz: int, worker_count: int, cell_radius: int, a: int, b: int)
    requires
        0 <= cell_radius,
        0 <= a < b < sub_cell_count(worker_count),
    ensures
        ({
            let ca = sub_cell_center(cx, cz, worker_count, cell_radius, a);
            let cb = sub_cell_center(cx, cz, worker_count, cell_radius, b);
            let side = cell_radius * 2 + 1;
            ca.0 - cb.0 >= side || cb.0 - ca.0 >= side || ca.1 - cb.1 >= side || cb.1 - ca.1 >= side
        }),
{
    let (cols, rows) = grid(worker_count);
    let side = cell_radius * 2 + 1;
    assert(rows == 1 || rows == 2);
    assert(0 <= a < b <= 3);
    if rows == 1 && a == 0 && b == 1 {
        assert(a / (rows as int) == 0 && a % (rows as int) == 0);
        assert(b / (rows as int) == 1 && b % (rows as int) == 0);
    } else if rows == 1 && a == 0 && b == 2 {
        assert(a / (rows as int) == 0 && a % (rows as int) == 0);
        assert(b / (rows as int) == 2 && b % (rows as int) == 0);
    } else if rows == 1 && a == 0 && b == 3 {
        assert(a / (rows as int) == 0 && a % (rows as int) == 0);
        assert(b / (rows as int) == 3 && b % (rows as int) == 0);
    } else if rows == 1 && a == 1 && b == 2 {
        assert(a / (rows as int) == 1 && a % (rows as int) == 0);
        assert(b / (rows as int) == 2 && b % (rows as int) == 0);
    } else if rows == 1 && a == 1 && b == 3 {
        assert(a / (rows as int) == 1 && a % (rows as int) == 0);
        assert(b / (rows as int) == 3 && b % (rows as int) == 0);
    } else if rows == 1 && a == 2 && b == 3 {
        assert(a / (rows as int) == 2 && a % (rows as int) == 0);
        assert(b / (rows as int) == 3 && b % (rows as int) == 0);
    } else if rows == 2 && a == 0 && b == 1 {
        assert(a / (rows as int) == 0 && a % (rows as int) == 0);
        assert(b / (rows as int) == 0 && b % (rows as int) == 1);
    } else if rows == 2 && a == 0 && b == 2 {
        assert(a / (rows as int) == 0 && a % (rows as int) == 0);
        assert(b / (rows as int) == 1 && b % (rows as int) == 0);
    } else if rows == 2 && a == 0 && b == 3 {
        assert(a / (rows as int) == 0 && a % (rows as int) == 0);
        assert(b / (rows as int) == 1 && b % (rows as int) == 1);
    } else if rows == 2 && a == 1 && b == 2 {
        assert(a / (rows as int) == 0 && a % (rows as int) == 1);
        assert(b / (rows as int) == 1 && b % (rows as int) == 0);
    } else if rows == 2 && a == 1 && b == 3 {
        assert(a / (rows as int) == 0 && a % (rows as int) == 1);
        assert(b / (rows as int) == 1 && b % (rows as int) == 1);
    } else if rows == 2 && a == 2 && b == 3 {
        assert(a / (rows as int) == 1 && a % (rows as int) == 0);
        assert(b / (rows as int) == 1 && b % (rows as int) == 1);
    }
}

/// The lowest corner (x, z) of the whole area split among `worker_count` residents.
pub open spec fn split_corner(cx: int, cz: int, worker_count: int, cell_radius: int) -> (int, int) {
    let (cols, rows) = grid(worker_count);
    let cell = cell_radius * 2 + 1;
    (cx - half_toward_zero(cols * cell), cz - half_toward_zero(rows * cell))
}

/// Whether column (x, z) lies in the whole area split among `worker_count` residents: a
/// rectangle of `cols` by `rows` sub-areas from the corner.
pub open spec fn in_split_area(cx: int, cz: int, worker_count: int, cell_radius: int, x: int, z: int) -> bool {
    let (cols, rows) = grid(worker_count);
    let cell = cell_radius * 2 + 1;
    let (x0, z0) = split_corner(cx, cz, worker_count, cell_radius);
    x0 <= x < x0 + cols * cell && z0 <= z < z0 + rows * cell
}

/// Whether column (x, z) lies in the square of radius `cell_radius` around a centre.
pub open spec fn in_square(c: (int, int), cell_radius: int, x: int, z: int) -> bool {
    c.0 - cell_radius <= x <= c.0 + cell_radius && c.1 - cell_radius <= z <= c.1 + cell_radius
}

/// The sub-area that column (x, z) of the whole area falls in.
pub open spec fn sub_cell_index(cx: int, cz: int, worker_count: int, cell_radius: int, x: int, z: int) -> int {
    let (cols, rows) = grid(worker_count);
    let cell = cell_radius * 2 + 1;
    let (x0, z0) = split_corner(cx, cz, worker_count, cell_radius);
    ((x - x0) / cell) * rows + (z - z0) / cell
}

/// The sub-areas of one split cover the whole area and nothing else: every sub-area's
/// square lies in the area, and every column of the area lies in the square of the
/// sub-area [`sub_cell_index`] names. With [`lemma_sub_cells_disjoint`], each column of the
/// area belongs to exactly one resident's share.
pub proof fn lemma_sub_cells_cover(cx: int, cz: int, worker_count: int, cell_radius: int)
    requires
        0 <= cell_radius,
    ensures
        sub_cell_count(worker_count) == grid(worker_count).0 * grid(worker_count).1,
        forall|k: int, x: int, z: int|
            0 <= k < sub_cell_count(worker_count) && #[trigger] in_square(
                sub_cell_center(cx, cz, worker_count, cell_radius, k),
                cell_radius,
                x,
                z,
            ) ==> in_split_area(cx, cz, worker_count, cell_radius, x, z),
        forall|x: int, z: int|
            #[trigger] in_split_area(cx, cz, worker_count, cell_radius, x, z) ==> {
                let k = sub_cell_index(cx, cz, worker_count, cell_radius, x, z);
                &&& 0 <= k < sub_cell_count(worker_count)
                &&& in_square(sub_cell_center(cx, cz, worker_count, cell_radius, k), cell_radius, x, z)
            },
{
    let (cols, rows) = grid(worker_count);
    let cell = cell_radius * 2 + 1;
    let (x0, z0) = split_corner(cx, cz, worker_count, cell_radius);
    assert(cols * cell >= 0 && rows * cell >= 0) by (nonlinear_arith)
        requires 1 <= cols <= 3, 1 <= rows <= 2, cell >= 1;
    assert(x0 == cx - (cols * cell) / 2 && z0 == cz - (rows * cell) / 2);
    assert forall|k: int, x: int, z: int|
        0 <= k < sub_cell_count(worker_count) && #[trigger] in_square(
            sub_cell_center(cx, cz, worker_count, cell_radius, k),
            cell_radius,
            x,
            z,
        ) implies in_split_area(cx, cz, worker_count, cell_radius, x, z) by {
        let kx = k / rows as int;
        let kz = k % rows as int;
        assert(0 <= kx < cols && 0 <= kz < rows) by (nonlinear_arith)
            requires 0 <= k < cols * rows, 1 <= rows, 1 <= cols, kx == k / rows as int, kz == k % rows as int;
        assert(0 <= kx * cell && kx * cell + cell <= cols * cell) by (nonlinear_arith)
            requires 0 <= kx < cols, cell >= 1;
        assert(0 <= kz * cell && kz * cell + cell <= rows * cell) by (nonlinear_arith)
            requires 0 <= kz < rows, cell >= 1;
        let c = sub_cell_center(cx, cz, worker_count, cell_radius, k);
        assert(c.0 == x0 + kx * cell + cell_radius);
        assert(c.1 == z0 + kz * cell + cell_radius);
    }
    assert forall|x: int, z: int| #[trigger] in_split_area(cx, cz, worker_count, cell_radius, x, z) implies {
        let k = sub_cell_index(cx, cz, worker_count, cell_radius, x, z);
        &&& 0 <= k < sub_cell_count(worker_count)
        &&& in_square(sub_cell_center(cx, cz, worker_count, cell_radius, k), cell_radius, x, z)
    } by {
        let a = x - x0;
        let b = z - z0;
        let kx = a / cell;
        let kz = b / cell;
        vstd::arithmetic::div_mod::lemma_fundamental_div_mod(a, cell);
        vstd::arithmetic::div_mod::lemma_fundamental_div_mod(b, cell);
        assert(0 <= kx < cols) by (nonlinear_arith)
            requires 0 <= a < cols * cell, cell >= 1, kx == a / cell, a == cell * (a / cell) + a % cell, 0 <= a % cell < cell;
        assert(0 <= kz < rows) by (nonlinear_arith)
            requires 0 <= b < rows * cell, cell >= 1, kz == b / cell, b == cell * (b / cell) + b % cell, 0 <= b % cell < cell;
        let k = kx * rows + kz;
        assert(k / rows as int == kx && k % rows as int == kz) by (nonlinear_arith)
            requires k == kx * rows + kz, 0 <= kz < rows, 0 <= kx;
        assert(0 <= k < cols * rows) by (nonlinear_arith)
            requires k == kx * rows + kz, 0 <= kz < rows, 0 <= kx < cols;
        assert(k == sub_cell_index(cx, cz, worker_count, cell_radius, x, z));
    }
}

/// The ranked candidates, in order, who may join a coordinated task: not the leader and
/// not already busy.
pub open spec fn free_candidates(ranked: Seq<Seq<char>>, leader: Seq<char>, busy: Seq<Seq<char>>) -> Seq<Seq<char>>
    decreases ranked.len(),
{
    if ranked.len() == 0 {
        ranked
    } else {
        let r = free_candidates(ranked.drop_last(), leader, busy);
        let c = ranked.last();
        if c != leader && !busy.contains(c) {
            r.push(c)
        } else {
            r
        }
    }
}

proof fn lemma_free_candidates_prefix(ranked: Seq<Seq<char>>, leader: Seq<char>, busy: Seq<Seq<char>>, i: int)
    requires
        0 <= i <= ranked.len(),
    ensures
        free_candidates(ranked.subrange(0, i), leader, busy).len() <= free_candidates(ranked, leader, busy).len(),
        free_candidates(ranked, leader, busy).subrange(0, free_candidates(ranked.subrange(0, i), leader, busy).len() as int)
            == free_candidates(ranked.subrange(0, i), leader, busy),
    decreases ranked.len() - i,
{
    if i == ranked.len() {
        assert(ranked.subrange(0, i) =~= ranked);
        let f = free_candidates(ranked, leader, busy);
        assert(f.subrange(0, f.len() as int) =~= f);
    } else {
        lemma_free_candidates_prefix(ranked, leader, busy, i + 1);
        let a = ranked.subrange(0, i);
        let b = ranked.subrange(0, i + 1);
        assert(b.drop_last() =~= a);
        let fa = free_candidates(a, leader, busy);
        let fb = free_candidates(b, leader, busy);
        let f = free_candidates(ranked, leader, busy);
        assert(fb.subrange(0, fa.len() as int) =~= fa);
        assert(f.subrange(0, fa.len() as int) =~= f.subrange(0, fb.len() as int).subrange(0, fa.len() as int));
    }
}

/// The residents of a coordinated task: the leader first, then the free candidates in the
/// order given (the caller ranks them by nearness to the area's centre, ties by id), up to
/// [`COORD_MAX_WORKERS`] in all.
pub fn select_coord_workers_ranked(leader_id: &str, ranked: &[String], busy: &[String]) -> (r: Vec<String>)
    ensures
        crate::text::string_views(r@) == seq![leader_id@] + {
            let f = free_candidates(crate::text::string_views(ranked@), leader_id@, crate::text::string_views(busy@));
            if f.len() > COORD_MAX_WORKERS - 1 { f.subrange(0, COORD_MAX_WORKERS - 1) } else { f }
        },
{
    let ghost rv = crate::text::string_views(ranked@);
    let ghost bv = crate::text::string_views(busy@);
    let mut chosen: Vec<String> = Vec::new();
    chosen.push(String::from_str(leader_id));
    let mut i: usize = 0;
    proof {
        assert(rv.subrange(0, 0) =~= Seq::<Seq<char>>::empty());
        assert(crate::text::string_views(chosen@) =~= seq![leader_id@] + free_candidates(rv.subrange(0, 0), leader_id@, bv));
    }
    while i < ranked.len()
        invariant
            rv == crate::text::string_views(ranked@),
            bv == crate::text::string_views(busy@),
            i <= ranked@.len(),
            crate::text::string_views(chosen@) == seq![leader_id@] + free_candidates(rv.subrange(0, i as int), leader_id@, bv),
            chosen@.len() <= COORD_MAX_WORKERS,
        ensures
            i == ranked@.len() || chosen@.len() >= COORD_MAX_WORKERS,
            i <= ranked@.len(),
            crate::text::string_views(chosen@) == seq![leader_id@] + free_candidates(rv.subrange(0, i as int), leader_id@, bv),
            chosen@.len() <= COORD_MAX_WORKERS,
        decreases ranked@.len() - i,
    {
        if chosen.len() >= COORD_MAX_WORKERS {
            break;
        }
        let c = ranked[i].as_str();
        let mut is_busy = false;
        let mut k: usize = 0;
        while k < busy.len()
            invariant
                bv == crate::text::string_views(busy@),
                k <= busy@.len(),
                is_busy == exists|j: int| 0 <= j < k && bv[j] == c@,
            decreases busy@.len() - k,
        {
            proof {
                assert(bv[k as int] == busy@[k as int]@);
            }
            if crate::assoc::str_eq(busy[k].as_str(), c) {
                is_busy = true;
            }
            k = k + 1;
        }
        proof {
            assert(rv[i as int] == ranked@[i as int]@);
            assert(rv.subrange(0, i + 1).drop_last() =~= rv.subrange(0, i as int));
            assert(rv.subrange(0, i + 1).last() == c@);
            assert(is_busy == bv.contains(c@));
        }
        if !crate::assoc::str_eq(c, leader_id) && !is_busy {
            let ghost before = chosen@;
            chosen.push(String::from_str(c));
            proof {
                assert(crate::text::string_views(chosen@) =~= crate::text::string_views(before).push(c@));
            }
        }
        i = i + 1;
    }
    proof {
        let f = free_candidates(rv, leader_id@, bv);
        let fp = free_candidates(rv.subrange(0, i as int), leader_id@, bv);
        lemma_free_candidates_prefix(rv, leader_id@, bv, i as int);
        assert(crate::text::string_views(chosen@).len() == chosen@.len());
        assert(chosen@.len() == 1 + fp.len());
        if i == ranked@.len() {
            assert(rv.subrange(0, i as int) =~= rv);
        }
        if fp.len() == COORD_MAX_WORKERS - 1 {
            assert(f.subrange(0, COORD_MAX_WORKERS - 1) == fp);
            if f.len() == fp.len() {
                assert(f.subrange(0, f.len() as int) =~= f);
            }
        }
    }
    chosen
}

/// A coordinated task: who asked, the residents taking part (the leader first), and the
/// paving material when it is a paving task.
#[derive(Debug, PartialEq)]
pub struct CoordinatedLevelTask {
    pub requester: String,
    pub members: Vec<String>,
    pub pave: Option<Block>,
}

impl Clone for CoordinatedLevelTask {
    fn clone(&self) -> (r: Self)
        ensures
            r.requester@ == self.requester@,
            crate::text::string_views(r.members@) == crate::text::string_views(self.members@),
            r.pave == self.pave,
    {
        let mut members: Vec<String> = Vec::new();
        let mut i: usize = 0;
        while i < self.members.len()
            invariant
                i <= self.members@.len(),
                crate::text::string_views(members@) == crate::text::string_views(self.members@.subrange(0, i as int)),
            decreases self.members@.len() - i,
        {
            let ghost before = members@;
            members.push(String::from_str(self.members[i].as_str()));
            proof {
                assert(self.members@.subrange(0, i + 1) =~= self.members@.subrange(0, i as int).push(self.members@[i as int]));
                assert(crate::text::string_views(members@) =~= crate::text::string_views(before).push(self.members@[i as int]@));
                assert(crate::text::string_views(self.members@.subrange(0, i + 1)) =~= crate::text::string_views(self.members@.subrange(0, i as int)).push(self.members@[i as int]@));
            }
            i = i + 1;
        }
        proof {
            assert(self.members@.subrange(0, i as int) =~= self.members@);
        }
        CoordinatedLevelTask { requester: String::from_str(self.requester.as_str()), members, pave: self.pave }
    }
}

impl CoordinatedLevelTask {
    /// A coordinated levelling task.
    pub fn new(requester: String, members: Vec<String>) -> (t: Self)
        ensures
            t.requester == requester,
            t.members == members,
            t.pave == None::<Block>,
    {
        CoordinatedLevelTask { requester, members, pave: None }
    }

    /// A coordinated paving task with material `mat`.
    pub fn new_pave(requester: String, members: Vec<String>, mat: Block) -> (t: Self)
        ensures
            t.requester == requester,
            t.members == members,
            t.pave == Some(mat),
    {
        CoordinatedLevelTask { requester, members, pave: Some(mat) }
    }

    /// Whether the whole task is done: it has members and none of them is still `active`.
    pub fn all_done(&self, active: &[String]) -> (b: bool)
        ensures
            b == (self.members@.len() > 0 && forall|i: int, j: int|
                0 <= i < self.members@.len() && 0 <= j < active@.len() ==> #[trigger] self.members@[i]@
                    != #[trigger] active@[j]@),
    {
        if self.members.len() == 0 {
            return false;
        }
        let mut i: usize = 0;
        while i < self.members.len()
            invariant
                i <= self.members@.len(),
                forall|a: int, j: int|
                    0 <= a < i && 0 <= j < active@.len() ==> #[trigger] self.members@[a]@ != #[trigger] active@[j]@,
            decreases self.members@.len() - i,
        {
            let mut j: usize = 0;
            while j < active.len()
                invariant
                    i < self.members@.len(),
                    j <= active@.len(),
                    forall|jj: int| 0 <= jj < j ==> self.members@[i as int]@ != #[trigger] active@[jj]@,
                decreases active@.len() - j,
            {
                if self.members[i] == active[j] {
                    return false;
                }
                j = j + 1;
            }
            i = i + 1;
        }
        true
    }
}

/// The block a paving word names: 石磚 and 石板 stone brick, 木地板 and 木板 planks, 玻璃 glass,
/// 石頭 and 石塊 stone, 沙子 and 細沙 sand, 泥土 dirt; nothing for any other word.
pub open spec fn paving_block(w: Seq<char>) -> Option<Block> {
    if w == "石磚"@ || w == "石板"@ {
        Some(Block::StoneBrick)
    } else if w == "木地板"@ || w == "木板"@ {
        Some(Block::Plank)
    } else if w == "玻璃"@ {
        Some(Block::Glass)
    } else if w == "石頭"@ || w == "石塊"@ {
        Some(Block::Stone)
    } else if w == "沙子"@ || w == "細沙"@ {
        Some(Block::Sand)
    } else if w == "泥土"@ {
        Some(Block::Dirt)
    } else {
        None
    }
}

/// Every row of the table pairs a word with what that word names, and every word that
/// names something is a row of the table.
proof fn lemma_paving_block_table()
    ensures
        forall|i: int| 0 <= i < 10 ==> paving_block(#[trigger] pave_words()[i]) == Some(pave_blocks()[i]),
        forall|w: Seq<char>| #[trigger] paving_block(w) is Some ==> exists|i: int| 0 <= i < 10 && #[trigger] pave_words()[i] == w,
{
    reveal_strlit("石磚");
    reveal_strlit("石板");
    reveal_strlit("木地板");
    reveal_strlit("木板");
    reveal_strlit("玻璃");
    reveal_strlit("石頭");
    reveal_strlit("石塊");
    reveal_strlit("沙子");
    reveal_strlit("細沙");
    reveal_strlit("泥土");
    assert forall|i: int| 0 <= i < 10 implies paving_block(#[trigger] pave_words()[i]) == Some(pave_blocks()[i]) by {
        if i == 0 {
            assert("石磚"@[1] != "石板"@[1]);
            assert("石磚"@.len() != "木地板"@.len());
            assert("石磚"@[0] != "木板"@[0]);
            assert("石磚"@[0] != "玻璃"@[0]);
            assert("石磚"@[1] != "石頭"@[1]);
            assert("石磚"@[1] != "石塊"@[1]);
            assert("石磚"@[0] != "沙子"@[0]);
            assert("石磚"@[0] != "細沙"@[0]);
            assert("石磚"@[0] != "泥土"@[0]);
            assert(paving_block("石磚"@) == Some(pave_blocks()[0]));
        }
        if i == 1 {
            assert("石板"@[1] != "石磚"@[1]);
            assert("石板"@.len() != "木地板"@.len());
            assert("石板"@[0] != "木板"@[0]);
            assert("石板"@[0] != "玻璃"@[0]);
            assert("石板"@[1] != "石頭"@[1]);
            assert("石板"@[1] != "石塊"@[1]);
            assert("石板"@[0] != "沙子"@[0]);
            assert("石板"@[0] != "細沙"@[0]);
            assert("石板"@[0] != "泥土"@[0]);
            assert(paving_block("石板"@) == Some(pave_blocks()[1]));
        }
        if i == 2 {
            assert("木地板"@.len() != "石磚"@.len());
            assert("木地板"@.len() != "石板"@.len());
            assert("木地板"@.len() != "木板"@.len());
            assert("木地板"@.len() != "玻璃"@.len());
            assert("木地板"@.len() != "石頭"@.len());
            assert("木地板"@.len() != "石塊"@.len());
            assert("木地板"@.len() != "沙子"@.len());
            assert("木地板"@.len() != "細沙"@.len());
            assert("木地板"@.len() != "泥土"@.len());
            assert(paving_block("木地板"@) == Some(pave_blocks()[2]));
        }
        if i == 3 {
            assert("木板"@[0] != "石磚"@[0]);
            assert("木板"@[0] != "石板"@[0]);
            assert("木板"@.len() != "木地板"@.len());
            assert("木板"@[0] != "玻璃"@[0]);
            assert("木板"@[0] != "石頭"@[0]);
            assert("木板"@[0] != "石塊"@[0]);
            assert("木板"@[0] != "沙子"@[0]);
            assert("木板"@[0] != "細沙"@[0]);
            assert("木板"@[0] != "泥土"@[0]);
            assert(paving_block("木板"@) == Some(pave_blocks()[3]));
        }
        if i == 4 {
            assert("玻璃"@[0] != "石磚"@[0]);
            assert("玻璃"@[0] != "石板"@[0]);
            assert("玻璃"@.len() != "木地板"@.len());
            assert("玻璃"@[0] != "木板"@[0]);
            assert("玻璃"@[0] != "石頭"@[0]);
            assert("玻璃"@[0] != "石塊"@[0]);
            assert("玻璃"@[0] != "沙子"@[0]);
            assert("玻璃"@[0] != "細沙"@[0]);
            assert("玻璃"@[0] != "泥土"@[0]);
            assert(paving_block("玻璃"@) == Some(pave_blocks()[4]));
        }
        if i == 5 {
            assert("石頭"@[1] != "石磚"@[1]);
            assert("石頭"@[1] != "石板"@[1]);
            assert("石頭"@.len() != "木地板"@.len());
            assert("石頭"@[0] != "木板"@[0]);
            assert("石頭"@[0] != "玻璃"@[0]);
            assert("石頭"@[1] != "石塊"@[1]);
            assert("石頭"@[0] != "沙子"@[0]);
            assert("石頭"@[0] != "細沙"@[0]);
            assert("石頭"@[0] != "泥土"@[0]);
            assert(paving_block("石頭"@) == Some(pave_blocks()[5]));
        }
        if i == 6 {
            assert("石塊"@[1] != "石磚"@[1]);
            assert("石塊"@[1] != "石板"@[1]);
            assert("石塊"@.len() != "木地板"@.len());
            assert("石塊"@[0] != "木板"@[0]);
            assert("石塊"@[0] != "玻璃"@[0]);
            assert("石塊"@[1] != "石頭"@[1]);
            assert("石塊"@[0] != "沙子"@[0]);
            assert("石塊"@[0] != "細沙"@[0]);
            assert("石塊"@[0] != "泥土"@[0]);
            assert(paving_block("石塊"@) == Some(pave_blocks()[6]));
        }
        if i == 7 {
            assert("沙子"@[0] != "石磚"@[0]);
            assert("沙子"@[0] != "石板"@[0]);
            assert("沙子"@.len() != "木地板"@.len());
            assert("沙子"@[0] != "木板"@[0]);
            assert("沙子"@[0] != "玻璃"@[0]);
            assert("沙子"@[0] != "石頭"@[0]);
            assert("沙子"@[0] != "石塊"@[0]);
            assert("沙子"@[0] != "細沙"@[0]);
            assert("沙子"@[0] != "泥土"@[0]);
            assert(paving_block("沙子"@) == Some(pave_blocks()[7]));
        }
        if i == 8 {
            assert("細沙"@[0] != "石磚"@[0]);
            assert("細沙"@[0] != "石板"@[0]);
            assert("細沙"@.len() != "木地板"@.len());
            assert("細沙"@[0] != "木板"@[0]);
            assert("細沙"@[0] != "玻璃"@[0]);
            assert("細沙"@[0] != "石頭"@[0]);
            assert("細沙"@[0] != "石塊"@[0]);
            assert("細沙"@[0] != "沙子"@[0]);
            assert("細沙"@[0] != "泥土"@[0]);
            assert(paving_block("細沙"@) == Some(pave_blocks()[8]));
        }
        if i == 9 {
            assert("泥土"@[0] != "石磚"@[0]);
            assert("泥土"@[0] != "石板"@[0]);
            assert("泥土"@.len() != "木地板"@.len());
            assert("泥土"@[0] != "木板"@[0]);
            assert("泥土"@[0] != "玻璃"@[0]);
            assert("泥土"@[0] != "石頭"@[0]);
            assert("泥土"@[0] != "石塊"@[0]);
            assert("泥土"@[0] != "沙子"@[0]);
            assert("泥土"@[0] != "細沙"@[0]);
            assert(paving_block("泥土"@) == Some(pave_blocks()[9]));
        }
    }
    assert forall|w: Seq<char>| #[trigger] paving_block(w) is Some implies exists|i: int| 0 <= i < 10 && #[trigger] pave_words()[i] == w by {
        if w == "石磚"@ {
            assert(pave_words()[0] == w);
        }
        if w == "石板"@ {
            assert(pave_words()[1] == w);
        }
        if w == "木地板"@ {
            assert(pave_words()[2] == w);
        }
        if w == "木板"@ {
            assert(pave_words()[3] == w);
        }
        if w == "玻璃"@ {
            assert(pave_words()[4] == w);
        }
        if w == "石頭"@ {
            assert(pave_words()[5] == w);
        }
        if w == "石塊"@ {
            assert(pave_words()[6] == w);
        }
        if w == "沙子"@ {
            assert(pave_words()[7] == w);
        }
        if w == "細沙"@ {
            assert(pave_words()[8] == w);
        }
        if w == "泥土"@ {
            assert(pave_words()[9] == w);
        }
    }
}

/// The first row from `from` on whose word occurs is one whose word occurs, and there is one
/// whenever some row's word occurs.
proof fn lemma_first_material_from_found(text: Seq<char>, from: int)
    requires
        0 <= from <= 10,
    ensures
        first_material_from(text, from) matches Some(v) ==> exists|j: int|
            from <= j < 10 && seq_contains(text, #[trigger] pave_words()[j]) && pave_blocks()[j] == v,
        (exists|j: int| from <= j < 10 && seq_contains(text, #[trigger] pave_words()[j])) ==> first_material_from(text, from) is Some,
    decreases 10 - from,
{
    if from < 10 {
        lemma_first_material_from_found(text, from + 1);
        if !seq_contains(text, pave_words()[from]) {
            if exists|j: int| from <= j < 10 && seq_contains(text, #[trigger] pave_words()[j]) {
                let j = choose|j: int| from <= j < 10 && seq_contains(text, #[trigger] pave_words()[j]);
                assert(j != from);
            }
        }
    }
}

/// Law: a recognised paving request paves with the block that some paving word in the
/// request names.
pub proof fn lemma_pave_block_is_named(text: Seq<char>)
    ensures
        pave_command(text) matches Some(b) ==> exists|w: Seq<char>| seq_contains(text, w) && #[trigger] paving_block(w) == Some(b),
{
    lemma_paving_block_table();
    lemma_first_material_from_found(text, 0);
    match pave_command(text) {
        Some(b) => {
            let j = choose|j: int| 0 <= j < 10 && seq_contains(text, #[trigger] pave_words()[j]) && pave_blocks()[j] == b;
            assert(paving_block(pave_words()[j]) == Some(b));
        },
        None => {},
    }
}

/// Law: a request holding a paving verb and a paving word `w`, where every paving word it
/// holds names the same block as `w`, paves with the block `w` names (so "幫我鋪木地板" paves
/// with planks).
pub proof fn lemma_pave_word_gives_block(text: Seq<char>, w: Seq<char>)
    requires
        paving_block(w) is Some,
        seq_contains(text, w),
        contains_any(text, pave_verb_tokens()),
        forall|v: Seq<char>| #[trigger] paving_block(v) is Some && seq_contains(text, v) ==> paving_block(v) == paving_block(w),
    ensures
        pave_command(text) == paving_block(w),
{
    lemma_paving_block_table();
    let i = choose|i: int| 0 <= i < 10 && #[trigger] pave_words()[i] == w;
    assert(seq_contains(text, pave_words()[i]));
    lemma_first_material_from_found(text, 0);
    let b = first_material_from(text, 0).unwrap();
    let j = choose|j: int| 0 <= j < 10 && seq_contains(text, #[trigger] pave_words()[j]) && pave_blocks()[j] == b;
    assert(paving_block(pave_words()[j]) == Some(pave_blocks()[j]));
}

} // verus!
