//! A village of voxel residents: the deterministic rules behind what they
//! say, remember, plant, fish, gift and celebrate.

pub mod text;
pub mod assoc;
pub mod strset;
pub mod voxel;
pub mod voxel_building;
pub mod voxel_playerepithet;
pub mod voxel_directed_task;
pub mod voxel_discovery;
pub mod voxel_dream;
pub mod voxel_dreamshare;
pub mod voxel_dropitem;
pub mod voxel_dungeon;
pub mod voxel_elder;
pub mod voxel_envoy_mark;
pub mod voxel_envy;
pub mod voxel_epithet_esteem;
pub mod voxel_epithet_sign;
pub mod voxel_epithet_spread;
pub mod voxel_expedition;
pub mod voxel_family;
pub mod voxel_famine;
pub mod voxel_farbond;
pub mod voxel_farm;

pub mod voxel_farm_admire;
pub mod voxel_farvisit;
pub mod voxel_feed;
pub mod voxel_festival;
pub mod voxel_fetch;
pub mod voxel_firework;
pub mod voxel_first_invention;
pub mod voxel_fishing;
pub mod voxel_fond_greeting;
pub mod voxel_friendtoken;
pub mod voxel_frontier_find;
pub mod voxel_frontier_visit;
pub mod voxel_furniture;
pub mod voxel_gift;
pub mod voxel_giftgarden;
pub mod voxel_memory;
pub mod voxel_gossip;
pub mod voxel_gratitude;
pub mod voxel_grove;
pub mod voxel_harvest_stock;
pub mod voxel_hobby;
pub mod voxel_hoe;
pub mod voxel_home_decor;
pub mod voxel_home_life;
