//! Envy turned into a wish: standing by a named landmark, a resident may wish for a
//! building of her own, which the building system can later take up.

use vstd::prelude::*;
use crate::text::{replace_all, replace_str, take_upto, truncate_chars, cat, cat5};
use crate::voxel_building::{BuildKind, build_name};

verus! {

/// Longest envy bubble, in characters.
pub const ENVY_SAY_MAX_CHARS: usize = 40;

/// The building kinds a resident may wish for.
pub open spec fn envy_kinds() -> Seq<BuildKind> {
    seq![BuildKind::House, BuildKind::Well, BuildKind::Tower, BuildKind::Garden, BuildKind::Pavilion]
}

/// The building kind at `pick`, taken modulo the number of kinds.
pub fn pick_envy_kind(pick: usize) -> (k: BuildKind)
    ensures
        k == envy_kinds()[(pick % 5) as int],
{
    let kinds: [BuildKind; 5] = [BuildKind::House, BuildKind::Well, BuildKind::Tower, BuildKind::Garden, BuildKind::Pavilion];
    proof {
        assert(kinds@ =~= envy_kinds());
    }
    kinds[pick % 5]
}

/// The wish itself, naming the landmark and the building kind.
pub fn envy_desire_text(structure_name: &str, kind: BuildKind) -> (r: String)
    ensures
        r@ == "看到「"@ + structure_name@ + "」那麼特別，我也好想擁有一座自己的"@ + build_name(kind),
{
    crate::text::cat3("看到「", structure_name, "」那麼特別，我也好想擁有一座自己的").concat(kind.display_name())
}

/// The four envy bubble frames, with {n} for the landmark and {k} for the building kind.
pub open spec fn envy_frames() -> Seq<Seq<char>> {
    seq![
        "「{n}」蓋得真美……我也好想有一座自己的{k}。"@,
        "每次經過「{n}」我都在想，要是我也有一座{k}該多好。"@,
        "看著「{n}」，我心裡忽然冒出一個念頭——我也想蓋一座{k}。"@,
        "「{n}」真的很打動我，也許有一天我也能擁有一座{k}。"@,
    ]
}

/// The bubble of a resident moved by a landmark: frame `pick % 4` with {n} and then {k}
/// filled in, cut to [`ENVY_SAY_MAX_CHARS`] characters.
pub fn envy_say_line(structure_name: &str, kind: BuildKind, pick: usize) -> (r: String)
    ensures
        r@ == take_upto(
            replace_all(replace_all(envy_frames()[(pick % 4) as int], "{n}"@, structure_name@), "{k}"@, build_name(kind)),
            ENVY_SAY_MAX_CHARS as int,
        ),
        r@.len() <= ENVY_SAY_MAX_CHARS,
{
    let frames: [&str; 4] = [
        "「{n}」蓋得真美……我也好想有一座自己的{k}。",
        "每次經過「{n}」我都在想，要是我也有一座{k}該多好。",
        "看著「{n}」，我心裡忽然冒出一個念頭——我也想蓋一座{k}。",
        "「{n}」真的很打動我，也許有一天我也能擁有一座{k}。",
    ];
    proof {
        assert(crate::text::views(frames@) =~= envy_frames());
        assert(crate::text::views(frames@)[(pick % 4) as int] == frames@[(pick % 4) as int]@);
        reveal_strlit("{n}");
        reveal_strlit("{k}");
    }
    let a = replace_str(frames[pick % 4], "{n}", structure_name);
    let b = replace_str(a.as_str(), "{k}", kind.display_name());
    truncate_chars(b.as_str(), ENVY_SAY_MAX_CHARS)
}

/// The feed line of a resident wishing for a building after seeing a landmark.
pub fn envy_feed_line(resident_name: &str, structure_name: &str, kind: BuildKind) -> (r: String)
    ensures
        r@ == resident_name@ + "看著「"@ + structure_name@ + "」，心裡冒出了想蓋一座"@ + build_name(kind) + "的念頭"@,
{
    let mut s = cat5(resident_name, "看著「", structure_name, "」，心裡冒出了想蓋一座", kind.display_name());
    s.append("的念頭");
    s
}

} // verus!
