use std::collections::HashMap;
use voxel_village::voxel::{Block, GatherResource};
use voxel_village::voxel_directed_task::{
    accept_line, craft_toward, detect_follow_command, detect_follow_stop, detect_level_command,
    detect_pave_command, follow_accept_line, follow_stop_line, follow_timeout_line, grid_dims,
    is_absurd_level, is_oversized_level, partition_sub_cells, partition_sub_cells_r,
    pave_accept_line, pave_material_name, pave_provision, pave_rally_line, rally_line,
    CoordinatedLevelTask, QuarryDig, COORD_CELL_RADIUS, COORD_MAX_WORKERS, PAVE_COORD_CELL_RADIUS,
};

/// Every block the paving table names, in table order.
const PAVE_MATERIAL_BLOCKS: [Block; 10] = [
    Block::StoneBrick,
    Block::StoneBrick,
    Block::Plank,
    Block::Plank,
    Block::Glass,
    Block::Stone,
    Block::Stone,
    Block::Sand,
    Block::Sand,
    Block::Dirt,
];

#[test]
fn detect_level_command_catches_leveling_intent() {
    assert!(detect_level_command("幫我把這裡整平"));
    assert!(detect_level_command("露娜，幫我把這裡整平"));
    assert!(detect_level_command("把這塊地推平"));
    assert!(detect_level_command("可以幫我剷平這塊地嗎"));
    assert!(detect_level_command("這裡夷平一下"));
    assert!(detect_level_command("幫我整地"));
    assert!(detect_level_command("清出一塊地給我"));
    assert!(detect_level_command("把這弄平"));
    assert!(detect_level_command("填平這個坑"));
}

#[test]
fn detect_level_command_ignores_chitchat() {
    assert!(!detect_level_command("你好呀，今天天氣真好"));
    assert!(!detect_level_command("你在做什麼呀"));
    assert!(!detect_level_command("這片天地好漂亮"));
    assert!(!detect_level_command("玻璃怎麼合成"));
    assert!(!detect_level_command("你叫什麼名字"));
    assert!(!detect_level_command(""));
}

#[test]
fn is_oversized_level_flags_big_requests() {
    // 大範圍 → 太大（該婉拒）。
    assert!(is_oversized_level("幫我把這附近100×100的地整平"));
    assert!(is_oversized_level("把這一大片整平"));
    assert!(is_oversized_level("夷平這整片土地"));
    assert!(is_oversized_level("把百格的地推平"));
    // 小範圍「這裡/這塊」→ 不算太大（居民做得到）。
    assert!(!is_oversized_level("幫我把這裡整平"));
    assert!(!is_oversized_level("把這塊地推平"));
    assert!(!is_oversized_level("整地"));
}

#[test]
fn accept_line_is_warm_and_varied() {
    let a = accept_line("露娜", 0);
    let b = accept_line("露娜", 1);
    assert!(!a.is_empty());
    assert_ne!(a, b, "不同 pick 應可選到不同句");
}

#[test]
fn detect_follow_command_catches_follow_intent() {
    assert!(detect_follow_command("跟我來"));
    assert!(detect_follow_command("露娜，跟我走"));
    assert!(detect_follow_command("你可以跟著我嗎"));
    assert!(detect_follow_command("跟着我"));
    assert!(detect_follow_command("陪我去那邊看看"));
}

#[test]
fn detect_follow_command_ignores_chitchat_and_talk_requests() {
    // 「跟我說/聊」是要她說話，不是要她跟著走——不該誤觸發。
    assert!(!detect_follow_command("跟我說說你今天做了什麼"));
    assert!(!detect_follow_command("可以跟我聊聊天嗎"));
    assert!(!detect_follow_command("你好呀，今天天氣真好"));
    assert!(!detect_follow_command(""));
}

#[test]
fn detect_follow_stop_catches_stop_intent() {
    assert!(detect_follow_stop("別跟了"));
    assert!(detect_follow_stop("好了，不用跟了"));
    assert!(detect_follow_stop("你留在這裡"));
}

#[test]
fn detect_follow_stop_ignores_unrelated_chat() {
    assert!(!detect_follow_stop("跟我來"));
    assert!(!detect_follow_stop("你好呀"));
    assert!(!detect_follow_stop(""));
}

#[test]
fn follow_lines_are_nonempty_and_varied() {
    let a = follow_accept_line(0);
    let b = follow_accept_line(1);
    assert!(!a.is_empty());
    assert_ne!(a, b);
    assert!(!follow_stop_line(0).is_empty());
    assert!(!follow_timeout_line(0).is_empty());
}

#[test]
fn is_absurd_level_only_flags_world_scale() {
    // 世界級 → 連協調也做不到 → 婉拒。
    assert!(is_absurd_level("幫我把整個世界都整平"));
    assert!(is_absurd_level("把所有的地都推平"));
    assert!(is_absurd_level("夷平整顆星球"));
    // 「大片／整片／100×100」是大範圍但不離譜 → 該號召協調、不算 absurd。
    assert!(!is_absurd_level("幫我把這一大片地整平"));
    assert!(!is_absurd_level("把這附近100×100的地整平"));
    assert!(!is_absurd_level("整平這整片土地"));
    assert!(!is_absurd_level("幫我整地"));
}

#[test]
fn oversized_but_not_absurd_is_coordinatable() {
    // 協調整地的觸發條件（voxel_ws 用）：是整地指令 + 大範圍 + 不離譜。
    let coordinatable = |t: &str| {
        detect_level_command(t) && is_oversized_level(t) && !is_absurd_level(t)
    };
    assert!(coordinatable("露娜，幫我把這一大片地整平"));
    assert!(coordinatable("把這附近100×100的地全部整平"));
    assert!(coordinatable("幫我夷平這整片土地"));
    // 世界級 → 大範圍但離譜 → 不導向協調（續走婉拒）。
    assert!(!coordinatable("把整個世界都整平"));
    // 小範圍 → 不是大範圍 → 走單人任務、不協調。
    assert!(!coordinatable("幫我把這裡整平"));
}

#[test]
fn rally_line_is_a_call_not_a_refusal() {
    let a = rally_line("露娜", 0);
    let b = rally_line("露娜", 1);
    assert!(!a.is_empty());
    assert_ne!(a, b, "不同 pick 應可選到不同句");
    // 是「號召大家一起」的口吻（含關鍵字），不是「做不到」的婉拒。
    assert!(rally_line("露娜", 0).contains("大家") || rally_line("露娜", 0).contains("夥伴"));
}

#[test]
fn grid_dims_pick_compact_grids() {
    assert_eq!(grid_dims(2), (2, 1));
    assert_eq!(grid_dims(3), (3, 1));
    assert_eq!(grid_dims(4), (2, 2));
    assert_eq!(grid_dims(1), (1, 1));
}

#[test]
fn coordinated_task_completes_when_all_members_gone() {
    let task = CoordinatedLevelTask::new(
        "濕濕的".into(),
        vec!["vox_res_0".into(), "vox_res_1".into()],
    );
    // 兩位都還在跑 → 未完成。
    let mut active: Vec<String> =
        ["vox_res_0", "vox_res_1"].iter().map(|s| s.to_string()).collect();
    assert!(!task.all_done(&active));
    // 只剩一位 → 仍未完成。
    active.retain(|a| a != "vox_res_0");
    assert!(!task.all_done(&active));
    // 全部子任務都消失 → 整體完成。
    active.retain(|a| a != "vox_res_1");
    assert!(task.all_done(&active));
}

#[test]
fn detect_pave_command_catches_paving_intent_with_material() {
    // 明確鋪面動詞 + 材料。
    assert_eq!(detect_pave_command("幫我把這裡鋪成石磚地"), Some(Block::StoneBrick));
    assert_eq!(detect_pave_command("露娜，把這塊鋪上木板好嗎"), Some(Block::Plank));
    assert_eq!(detect_pave_command("這裡鋪滿玻璃"), Some(Block::Glass));
    assert_eq!(detect_pave_command("幫我鋪一條石板路"), Some(Block::StoneBrick));
    assert_eq!(detect_pave_command("把這裡鋪成石頭"), Some(Block::Stone));
    assert_eq!(detect_pave_command("鋪點沙子在這裡"), Some(Block::Sand));
    // 「材料+地」複合詞 + 動作暗示——維護者的原句必須命中石磚。
    assert_eq!(
        detect_pave_command("是說100×100石磚地 找大家做的如何"),
        Some(Block::StoneBrick)
    );
    assert_eq!(detect_pave_command("幫我弄個木板地"), Some(Block::Plank));
}

#[test]
fn detect_pave_command_prefers_longest_material_word() {
    // 「石磚」要贏過「石頭」：句中只有石磚時絕不能誤判成石頭。
    assert_eq!(detect_pave_command("把這裡鋪成石磚"), Some(Block::StoneBrick));
    // 兩者都在時，長詞（表前位）優先。
    assert_eq!(detect_pave_command("用石頭合的石磚鋪上這裡"), Some(Block::StoneBrick));
}

#[test]
fn detect_pave_command_ignores_chitchat_and_levelling() {
    // 純聊天：有材料沒動作 / 有「鋪」字名詞沒材料 → 都不觸發。
    assert_eq!(detect_pave_command("我喜歡石磚地"), None);
    assert_eq!(detect_pave_command("我的床鋪旁邊有塊石頭"), None);
    assert_eq!(detect_pave_command("石磚怎麼合成呀"), None);
    assert_eq!(detect_pave_command("你好呀，今天天氣真好"), None);
    // 整地指令沒有材料 → 不是鋪面（交給整地分支）。
    assert_eq!(detect_pave_command("幫我把這裡整平"), None);
    assert_eq!(detect_pave_command(""), None);
}

#[test]
fn pave_material_name_covers_supported_blocks() {
    for b in PAVE_MATERIAL_BLOCKS {
        assert_ne!(pave_material_name(b), "材料", "支援材料都該有專屬名字");
    }
}

#[test]
fn pave_provision_matches_craft_recipes() {
    // 石磚：2 石 → 2 石磚，原料石頭、可挖井。
    let p = pave_provision(Block::StoneBrick).unwrap();
    assert_eq!(p.raw, GatherResource::Stone);
    assert_eq!(p.craft, Some((2, 2)));
    assert!(p.quarryable);
    // 木板：2 木 → 4 木板，原料木頭、不可挖井（樹只在地表）。
    let p = pave_provision(Block::Plank).unwrap();
    assert_eq!(p.raw, GatherResource::Wood);
    assert_eq!(p.craft, Some((2, 4)));
    assert!(!p.quarryable);
    // 玻璃：2 沙 → 1 玻璃。
    let p = pave_provision(Block::Glass).unwrap();
    assert_eq!(p.raw, GatherResource::Sand);
    assert_eq!(p.craft, Some((2, 1)));
    assert!(!p.quarryable);
    // 原料即材料：石頭免合成、可挖井；沙免合成、不可挖井。
    let p = pave_provision(Block::Stone).unwrap();
    assert_eq!(p.raw, GatherResource::Stone);
    assert_eq!(p.craft, None);
    assert!(p.quarryable);
    let p = pave_provision(Block::Sand).unwrap();
    assert_eq!(p.craft, None);
    assert!(!p.quarryable);
    // 支援表上的每種材料都備得出來（detect 與 provision 永遠一致）。
    for b in PAVE_MATERIAL_BLOCKS {
        assert!(pave_provision(b).is_some(), "{b:?} 該有備料規格");
    }
}

#[test]
fn craft_toward_crafts_until_enough_or_raw_runs_out() {
    // 6 石在袋，要 5 石磚：2 石→2 磚 × 3 輪 → 6 磚（≥5 停）、石 0。
    let mut bag: HashMap<u8, u32> = HashMap::from([(Block::Stone.id(), 6)]);
    let made = craft_toward(&mut bag, Block::StoneBrick, 5);
    assert_eq!(made, 6);
    assert_eq!(bag.get(&(Block::StoneBrick.id())), Some(&6));
    assert_eq!(bag.get(&(Block::Stone.id())), Some(&0));
    // 已夠 → 一輪都不合（不浪費原料）。
    let made = craft_toward(&mut bag, Block::StoneBrick, 5);
    assert_eq!(made, 0);
    // 原料不足一輪 → 合不出來。
    let mut bag: HashMap<u8, u32> = HashMap::from([(Block::Stone.id(), 1)]);
    assert_eq!(craft_toward(&mut bag, Block::StoneBrick, 1), 0);
    assert_eq!(bag.get(&(Block::Stone.id())), Some(&1), "不夠合就不動原料");
    // 免合成材料（石頭直採）→ 恆 0。
    let mut bag: HashMap<u8, u32> = HashMap::new();
    assert_eq!(craft_toward(&mut bag, Block::Stone, 5), 0);
}

#[test]
fn oversized_pave_is_coordinatable_and_absurd_is_not() {
    // 觸發條件鏡像整地：鋪面指令 + 大範圍 + 不離譜 → 號召協調（先鋪上限的一塊）。
    let coordinatable = |t: &str| {
        detect_pave_command(t).is_some() && is_oversized_level(t) && !is_absurd_level(t)
    };
    assert!(coordinatable("是說100×100石磚地 找大家做的如何"));
    assert!(coordinatable("把這一大片鋪成木板"));
    // 世界級 → 連協調也做不到 → 不導向協調（續走婉拒）。
    assert!(!coordinatable("把整個世界鋪成石磚"));
    assert!(is_absurd_level("把整個世界鋪成石磚"));
    // 小範圍 → 單人鋪面、不協調。
    assert!(!coordinatable("幫我把這裡鋪成石磚地"));
}

#[test]
fn pave_lines_are_honest_and_varied() {
    let a = pave_accept_line("石磚", 0);
    let b = pave_accept_line("石磚", 1);
    assert!(a.contains("石磚"));
    assert_ne!(a, b);
    // 號召句要傳達「先從一塊開始、一塊一塊來」的誠實態度（不拒絕也不吹牛）。
    for pick in 0..3 {
        let r = pave_rally_line("石磚", pick);
        assert!(r.contains("石磚"));
        assert!(r.contains("一塊"), "號召句應提到先從一塊開始：{r}");
    }
}

#[test]
fn coordinated_pave_task_tracks_material() {
    let t = CoordinatedLevelTask::new_pave(
        "濕濕的".into(),
        vec!["vox_res_0".into()],
        Block::StoneBrick,
    );
    assert_eq!(t.pave, Some(Block::StoneBrick));
    // 既有整地建構子不帶材料（零回歸）。
    assert_eq!(CoordinatedLevelTask::new("p".into(), vec![]).pave, None);
}

#[test]
fn partition_sub_cells_lays_squares_edge_to_edge() {
    // 4 workers: a 2×2 grid of 13×13 squares centred on (0, 0).
    let cells = partition_sub_cells(0, 0, 4);
    assert_eq!(cells, vec![(-7, -7), (-7, 6), (6, -7), (6, 6)]);
    // 3 workers: three squares in a row.
    let cells = partition_sub_cells(100, 50, 3);
    assert_eq!(cells, vec![(87, 50), (100, 50), (113, 50)]);
    // 1 worker (or none): one square at the centre.
    assert_eq!(partition_sub_cells(5, 5, 1), vec![(5, 5)]);
    assert_eq!(partition_sub_cells(5, 5, 0), vec![(5, 5)]);
}

#[test]
fn partition_sub_cells_never_overlap() {
    for n in 1..=6usize {
        for r in [COORD_CELL_RADIUS, PAVE_COORD_CELL_RADIUS] {
            let cells = partition_sub_cells_r(3, -4, n, r);
            let side = 2 * r + 1;
            for a in 0..cells.len() {
                for b in (a + 1)..cells.len() {
                    let (xa, za) = cells[a];
                    let (xb, zb) = cells[b];
                    assert!((xa - xb).abs() >= side || (za - zb).abs() >= side);
                }
            }
        }
    }
}

#[test]
fn craft_toward_plank_and_glass_ratios() {
    let mut bag: HashMap<u8, u32> = HashMap::from([(Block::Wood.id(), 5)]);
    // 2 wood -> 4 planks, twice: 8 planks, 1 wood left.
    assert_eq!(craft_toward(&mut bag, Block::Plank, 7), 8);
    assert_eq!(bag.get(&Block::Plank.id()), Some(&8));
    assert_eq!(bag.get(&Block::Wood.id()), Some(&1));
    let mut bag: HashMap<u8, u32> = HashMap::from([(Block::Sand.id(), 3)]);
    assert_eq!(craft_toward(&mut bag, Block::Glass, 10), 1);
    assert_eq!(bag.get(&Block::Sand.id()), Some(&1));
    assert_eq!(bag.get(&Block::Glass.id()), Some(&1));
}

#[test]
fn pave_provision_of_unsupported_block_is_none() {
    assert_eq!(pave_provision(Block::Torch), None);
    assert_eq!(pave_provision(Block::Air), None);
    assert_eq!(pave_material_name(Block::Torch), "材料");
    assert_eq!(pave_provision(Block::Dirt).map(|p| p.raw), Some(GatherResource::Dirt));
}

#[test]
fn quarry_dig_is_done_at_end_of_cells() {
    let q = QuarryDig { cells: vec![(0, 0, 0), (1, -1, 0)], idx: 1 };
    assert!(!q.is_done());
    let q = QuarryDig { cells: vec![(0, 0, 0), (1, -1, 0)], idx: 2 };
    assert!(q.is_done());
    assert!(QuarryDig { cells: vec![], idx: 0 }.is_done());
}

#[test]
fn ranked_workers_lead_with_leader_then_nearest_free() {
    // Candidates already ranked by distance to the centre (0, 0): 1 (2), 2 (5), 3 (30), 0 (100).
    let ranked: Vec<String> = ["vox_res_1", "vox_res_2", "vox_res_3", "vox_res_0"].iter().map(|s| s.to_string()).collect();
    let chosen = voxel_village::voxel_directed_task::select_coord_workers_ranked("vox_res_0", &ranked, &[]);
    assert_eq!(chosen, vec!["vox_res_0", "vox_res_1", "vox_res_2", "vox_res_3"]);
    assert_eq!(chosen.len(), COORD_MAX_WORKERS);
}

#[test]
fn ranked_workers_skip_busy_and_cap() {
    let ranked: Vec<String> = ["vox_res_0", "vox_res_1", "vox_res_2", "vox_res_3", "vox_res_4", "vox_res_5"].iter().map(|s| s.to_string()).collect();
    let busy = vec!["vox_res_1".to_string()];
    let chosen = voxel_village::voxel_directed_task::select_coord_workers_ranked("vox_res_0", &ranked, &busy);
    assert_eq!(chosen, vec!["vox_res_0", "vox_res_2", "vox_res_3", "vox_res_4"]);
}

#[test]
fn partition_sub_cells_r_pave_radius_disjoint_and_cover() {
    let r = voxel_village::voxel_directed_task::PAVE_COORD_CELL_RADIUS;
    let (cx, cz) = (40, 60);
    for n in 1..=4usize {
        let cells = voxel_village::voxel_directed_task::partition_sub_cells_r(cx, cz, n, r);
        assert_eq!(cells.len(), n);
        let mut seen = std::collections::HashSet::new();
        for &(scx, scz) in &cells {
            for x in (scx - r)..=(scx + r) {
                for z in (scz - r)..=(scz + r) {
                    assert!(seen.insert((x, z)), "鋪面子區之間不應重疊 ({x},{z})");
                }
            }
        }
        let (cols, rows) = voxel_village::voxel_directed_task::grid_dims(n);
        let cell = 2 * r + 1;
        let (x0, z0) = (cx - (cols * cell) / 2, cz - (rows * cell) / 2);
        let mut want = std::collections::HashSet::new();
        for x in x0..x0 + cols * cell {
            for z in z0..z0 + rows * cell {
                want.insert((x, z));
            }
        }
        assert_eq!(seen, want, "聯集剛好鋪滿");
    }
}
