//! The buried temple: what a player is told on reaching its relic core.

use vstd::prelude::*;
use crate::text::{dec, push_dec};

verus! {

/// Coins granted for reaching the relic core.
pub const RELIC_COIN_COUNT: u32 = 20;

/// The milestone id of the first dungeon.
pub const MILESTONE_ID: &'static str = "first_dungeon";

/// The message a player gets on reaching the relic core, naming the coins received.
pub fn relic_discovered_line() -> (r: String)
    ensures
        r@ == "你挖穿了深層的一整片磚牆，眼前赫然是一座人工鑿建的地底密室——遺跡核心靜靜發著幽光，周圍散落著先民留下的痕跡。你小心翼翼地取下核心，得到 "@
            + dec(RELIC_COIN_COUNT as nat) + " 枚乙太幣。"@,
{
    let mut s = String::from_str(
        "你挖穿了深層的一整片磚牆，眼前赫然是一座人工鑿建的地底密室——遺跡核心靜靜發著幽光，周圍散落著先民留下的痕跡。你小心翼翼地取下核心，得到 ",
    );
    push_dec(&mut s, RELIC_COIN_COUNT as u64);
    s.append(" 枚乙太幣。");
    s
}

/// The feed detail of the temple's discovery.
pub fn relic_feed_detail() -> (r: String)
    ensures
        r@ == "一路往深處挖，鑿穿了一整片石牆，撞見一座人工鑿建的地底遺跡神殿——世界第一座"@
            + "藏在岩壁裡的密室，就此被人找到了。"@,
{
    crate::text::cat("一路往深處挖，鑿穿了一整片石牆，撞見一座人工鑿建的地底遺跡神殿——世界第一座", "藏在岩壁裡的密室，就此被人找到了。")
}

} // verus!
