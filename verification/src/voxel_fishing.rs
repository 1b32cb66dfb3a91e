//! Fishing: cast at a water surface, wait, and reel in a catch. The catch and the wait are
//! drawn from a roll the server makes; rain, night, deep water and snowy lakes change the odds.

use vstd::prelude::*;
use crate::text::cat3;

verus! {

/// The fishing rod's item id.
pub const FISHING_ROD_ID: u8 = 60;
/// A small fish, the common catch.
pub const FISH_ID: u8 = 61;
/// The rare aether fish.
pub const AETHER_FISH_ID: u8 = 62;
/// A grilled fish, made in the furnace.
pub const COOKED_FISH_ID: u8 = 63;
/// The moonfish, which bites only at night.
pub const MOONFISH_ID: u8 = 111;
/// The abyssal aether fish, which lives only in deep water.
pub const ABYSSAL_FISH_ID: u8 = 112;

/// Depth of water, in blocks below the surface, that counts as deep.
pub const DEEP_WATER_DEPTH: i32 = 3;

/// Shortest wait for a bite in dry weather, in seconds.
pub const BITE_MIN_SECS: u64 = 3;
/// Longest wait for a bite in dry weather, in seconds.
pub const BITE_MAX_SECS: u64 = 7;
/// Shortest wait for a bite in the rain, in seconds.
pub const RAIN_BITE_MIN_SECS: u64 = 2;
/// Longest wait for a bite in the rain, in seconds.
pub const RAIN_BITE_MAX_SECS: u64 = 4;
/// In the rain, a roll divisible by this gives an aether fish.
pub const RAIN_RARE_CATCH_MOD: u64 = 3;
/// In deep water, a mixed roll divisible by this gives an abyssal fish.
pub const ABYSSAL_CATCH_MOD: u64 = 12;
/// In a deep snowy lake, a mixed roll divisible by this gives an abyssal fish.
pub const ABYSSAL_SNOW_CATCH_MOD: u64 = 7;
/// At night, a mixed roll divisible by this gives a moonfish.
pub const MOONFISH_CATCH_MOD: u64 = 8;

/// Where and when a line is cast.
#[derive(Debug, Clone, Copy, PartialEq, Eq, Structural)]
pub struct FishContext {
    /// Whether it is raining.
    pub raining: bool,
    /// Whether it is night.
    pub night: bool,
    /// Whether the water is deep (see [`DEEP_WATER_DEPTH`]).
    pub deep: bool,
    /// Whether the spot lies in the snow biome.
    pub snow: bool,
}

/// Whether block `id` is water: a source (7) or flowing water (24 to 30).
pub fn is_water_block(id: u8) -> (b: bool)
    ensures
        b == (id == 7 || (24 <= id && id <= 30)),
{
    id == 7 || (24 <= id && id <= 30)
}

/// Whether water `consecutive_depth` blocks deep counts as deep.
pub fn is_deep_water(consecutive_depth: i32) -> (b: bool)
    ensures
        b == (consecutive_depth >= DEEP_WATER_DEPTH),
{
    consecutive_depth >= DEEP_WATER_DEPTH
}

/// The catch for a roll in the given weather: an aether fish when the roll is divisible by
/// three in the rain or by five otherwise, else a small fish.
pub open spec fn catch_for(roll: u64, raining: bool) -> u8 {
    if (if raining { roll % RAIN_RARE_CATCH_MOD == 0 } else { roll % 5 == 0 }) {
        AETHER_FISH_ID
    } else {
        FISH_ID
    }
}

/// The catch for a roll in dry weather.
pub fn pick_catch(roll: u64) -> (id: u8)
    ensures
        id == catch_for(roll, false),
{
    pick_catch_for(roll, false)
}

/// The catch for a roll in the given weather.
pub fn pick_catch_for(roll: u64, raining: bool) -> (id: u8)
    ensures
        id == catch_for(roll, raining),
{
    let hit = if raining {
        roll % RAIN_RARE_CATCH_MOD == 0
    } else {
        roll % 5 == 0
    };
    if hit {
        AETHER_FISH_ID
    } else {
        FISH_ID
    }
}

/// The catch for a roll in a context, rarest first: in deep water an abyssal fish when the
/// roll mixed by 2654435761 is divisible by the deep-water modulus (smaller in a snowy lake);
/// else at night a moonfish when the roll mixed by 40503 is divisible by
/// [`MOONFISH_CATCH_MOD`]; else the catch of [`catch_for`]. Mixing multiplies modulo 2^64.
pub open spec fn catch_in(roll: u64, ctx: FishContext) -> u8 {
    if ctx.deep && roll.wrapping_mul(2_654_435_761) % (if ctx.snow {
        ABYSSAL_SNOW_CATCH_MOD
    } else {
        ABYSSAL_CATCH_MOD
    }) == 0 {
        ABYSSAL_FISH_ID
    } else if ctx.night && roll.wrapping_mul(40_503) % MOONFISH_CATCH_MOD == 0 {
        MOONFISH_ID
    } else {
        catch_for(roll, ctx.raining)
    }
}

/// The catch for a roll in a context.
pub fn pick_catch_ctx(roll: u64, ctx: FishContext) -> (id: u8)
    ensures
        id == catch_in(roll, ctx),
{
    if ctx.deep {
        let modulo = if ctx.snow { ABYSSAL_SNOW_CATCH_MOD } else { ABYSSAL_CATCH_MOD };
        if roll.wrapping_mul(2_654_435_761) % modulo == 0 {
            return ABYSSAL_FISH_ID;
        }
    }
    if ctx.night && roll.wrapping_mul(40_503) % MOONFISH_CATCH_MOD == 0 {
        return MOONFISH_ID;
    }
    pick_catch_for(roll, ctx.raining)
}

/// Law: a moonfish bites only at night and an abyssal fish only in deep water; every catch
/// is one of the four fish; and a dry day in shallow water gives what [`pick_catch`] gives.
pub proof fn lemma_catch_follows_environment(roll: u64, ctx: FishContext)
    ensures
        catch_in(roll, ctx) == MOONFISH_ID ==> ctx.night,
        catch_in(roll, ctx) == ABYSSAL_FISH_ID ==> ctx.deep,
        catch_in(roll, ctx) == FISH_ID || catch_in(roll, ctx) == AETHER_FISH_ID || catch_in(roll, ctx)
            == MOONFISH_ID || catch_in(roll, ctx) == ABYSSAL_FISH_ID,
        !ctx.deep && !ctx.night ==> catch_in(roll, ctx) == catch_for(roll, ctx.raining),
{
}

/// Whether a catch is rare (aether fish, moonfish or abyssal fish).
pub fn is_rare_catch(fish_id: u8) -> (b: bool)
    ensures
        b == (fish_id == AETHER_FISH_ID || fish_id == MOONFISH_ID || fish_id == ABYSSAL_FISH_ID),
{
    fish_id == AETHER_FISH_ID || fish_id == MOONFISH_ID || fish_id == ABYSSAL_FISH_ID
}

/// Seconds to wait for a bite: the weather's shortest wait plus the roll modulo the number
/// of possible waits.
pub open spec fn bite_wait(roll: u64, raining: bool) -> u64 {
    if raining {
        (RAIN_BITE_MIN_SECS + roll % ((RAIN_BITE_MAX_SECS - RAIN_BITE_MIN_SECS + 1) as u64)) as u64
    } else {
        (BITE_MIN_SECS + roll % ((BITE_MAX_SECS - BITE_MIN_SECS + 1) as u64)) as u64
    }
}

/// Seconds to wait for a bite in dry weather.
pub fn bite_secs(roll: u64) -> (s: u64)
    ensures
        s == bite_wait(roll, false),
        BITE_MIN_SECS <= s <= BITE_MAX_SECS,
{
    bite_secs_for(roll, false)
}

/// Seconds to wait for a bite in the given weather, within that weather's bounds.
pub fn bite_secs_for(roll: u64, raining: bool) -> (s: u64)
    ensures
        s == bite_wait(roll, raining),
        raining ==> RAIN_BITE_MIN_SECS <= s <= RAIN_BITE_MAX_SECS,
        !raining ==> BITE_MIN_SECS <= s <= BITE_MAX_SECS,
{
    let (min, max) = if raining {
        (RAIN_BITE_MIN_SECS, RAIN_BITE_MAX_SECS)
    } else {
        (BITE_MIN_SECS, BITE_MAX_SECS)
    };
    let span = max - min + 1;
    min + roll % span
}

/// The name of a fishing item.
pub open spec fn fish_name(id: u8) -> Seq<char> {
    if id == FISHING_ROD_ID {
        "釣竿"@
    } else if id == FISH_ID {
        "小魚"@
    } else if id == AETHER_FISH_ID {
        "乙太魚"@
    } else if id == COOKED_FISH_ID {
        "烤魚"@
    } else if id == MOONFISH_ID {
        "夜光魚"@
    } else if id == ABYSSAL_FISH_ID {
        "深海乙太魚"@
    } else {
        "漁獲"@
    }
}

/// The name of a fishing item ("漁獲" for any other id).
pub fn fish_name_zh(id: u8) -> (r: &'static str)
    ensures
        r@ == fish_name(id),
{
    if id == FISHING_ROD_ID {
        "釣竿"
    } else if id == FISH_ID {
        "小魚"
    } else if id == AETHER_FISH_ID {
        "乙太魚"
    } else if id == COOKED_FISH_ID {
        "烤魚"
    } else if id == MOONFISH_ID {
        "夜光魚"
    } else if id == ABYSSAL_FISH_ID {
        "深海乙太魚"
    } else {
        "漁獲"
    }
}

/// The hint after casting in dry weather.
pub fn cast_hint() -> (r: &'static str)
    ensures
        r@ == "🎣 拋竿了——浮標靜靜漂在水面，靜候魚兒上鉤…"@,
{
    cast_hint_for(false)
}

/// The hint after casting; in the rain it says that the fish are lively.
pub fn cast_hint_for(raining: bool) -> (r: &'static str)
    ensures
        r@ == if raining {
            "🎣🌧️ 拋竿了——雨天魚兒特別活躍，浮標應該很快就有動靜…"@
        } else {
            "🎣 拋竿了——浮標靜靜漂在水面，靜候魚兒上鉤…"@
        },
{
    if raining {
        "🎣🌧️ 拋竿了——雨天魚兒特別活躍，浮標應該很快就有動靜…"
    } else {
        "🎣 拋竿了——浮標靜靜漂在水面，靜候魚兒上鉤…"
    }
}

/// The hint when reeling in before a bite.
pub fn too_early_hint() -> (r: &'static str)
    ensures
        r@ == "浮標還穩穩地浮著，別急，再等一會兒…"@,
{
    "浮標還穩穩地浮著，別急，再等一會兒…"
}

/// What the player is told on landing a catch; each rare fish has its own line.
pub open spec fn catch_self_text(fish_id: u8) -> Seq<char> {
    if fish_id == ABYSSAL_FISH_ID {
        "🌌 收竿！深水裡竟拉起一尾流淌著幽藍星芒的深海乙太魚——傳說中最珍稀的漁獲！哇！！"@
    } else if fish_id == MOONFISH_ID {
        "🌙 收竿！月光下一尾泛著珍珠柔白微光的夜光魚破水而出——好美的夜釣驚喜！哇！"@
    } else if fish_id == AETHER_FISH_ID {
        "✨ 收竿！一尾泛著青藍幽光的乙太魚破水而出——好稀有的漁獲！"@
    } else {
        "🎣 收竿！釣起一尾活蹦亂跳的"@ + fish_name(fish_id) + "！"@
    }
}

/// What the player is told on landing a catch.
pub fn catch_self_line(fish_id: u8) -> (r: String)
    ensures
        r@ == catch_self_text(fish_id),
{
    if fish_id == ABYSSAL_FISH_ID {
        String::from_str("🌌 收竿！深水裡竟拉起一尾流淌著幽藍星芒的深海乙太魚——傳說中最珍稀的漁獲！哇！！")
    } else if fish_id == MOONFISH_ID {
        String::from_str("🌙 收竿！月光下一尾泛著珍珠柔白微光的夜光魚破水而出——好美的夜釣驚喜！哇！")
    } else if fish_id == AETHER_FISH_ID {
        String::from_str("✨ 收竿！一尾泛著青藍幽光的乙太魚破水而出——好稀有的漁獲！")
    } else {
        cat3("🎣 收竿！釣起一尾活蹦亂跳的", fish_name_zh(fish_id), "！")
    }
}

/// The feed line of a player's catch; each rare fish has its own line.
pub open spec fn catch_feed_text(player: Seq<char>, fish_id: u8) -> Seq<char> {
    if fish_id == ABYSSAL_FISH_ID {
        player + " 從深水裡釣起了一尾傳說中的深海乙太魚，幽藍星芒在掌心流轉 🌌"@
    } else if fish_id == MOONFISH_ID {
        player + " 在月光下釣起了一尾夜光魚，珍珠般的柔白微光靜靜漾著 🌙"@
    } else if fish_id == AETHER_FISH_ID {
        player + " 在水邊釣起了一尾稀有的乙太魚，青藍幽光在掌心閃動 ✨"@
    } else {
        player + " 在水邊釣起了一尾"@ + fish_name(fish_id)
    }
}

/// The feed line of a player's catch.
pub fn catch_feed_line(player: &str, fish_id: u8) -> (r: String)
    ensures
        r@ == catch_feed_text(player@, fish_id),
{
    let mut s = String::from_str(player);
    if fish_id == ABYSSAL_FISH_ID {
        s.append(" 從深水裡釣起了一尾傳說中的深海乙太魚，幽藍星芒在掌心流轉 🌌");
    } else if fish_id == MOONFISH_ID {
        s.append(" 在月光下釣起了一尾夜光魚，珍珠般的柔白微光靜靜漾著 🌙");
    } else if fish_id == AETHER_FISH_ID {
        s.append(" 在水邊釣起了一尾稀有的乙太魚，青藍幽光在掌心閃動 ✨");
    } else {
        s.append(" 在水邊釣起了一尾");
        s.append(fish_name_zh(fish_id));
    }
    s
}

} // verus!
