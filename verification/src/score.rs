//! Executable scorer: a pure preference score for one candidate executable,
//! given the enclosing folder's base name and the candidate's file size in
//! bytes. Higher is more preferred. A blacklisted stem (installer,
//! uninstaller, utility) dominates everything; then localization, name
//! affinity and size add up, each tier outweighing the maximum the lower
//! tiers can contribute together.

use vstd::prelude::*;

use crate::paths::{base_name, has_zh_segment, stem_of};
use crate::paths::{base_name_str, stem_and_ext, zh_segment};
use crate::text::{ci_contains, contains_ci};

verus! {

/// Score of any executable whose stem holds a blacklist marker.
pub const BLACKLISTED_SCORE: i64 = -1_000_000;

/// Bonus when the full path holds `chs` (Chinese Simplified build).
pub const CHS_BONUS: i64 = 100_000;

/// Bonus for the other Chinese-localization indicators.
pub const CN_BONUS: i64 = 50_000;

/// Bonus when the executable's stem echoes the folder's base name.
pub const NAME_AFFINITY_BONUS: i64 = 10_000;

/// Cap on the points contributed by file size (in KiB).
pub const SIZE_POINTS_CAP: u64 = 9_999;

/// The stem (filename without extension) marks an installer, uninstaller,
/// launcher, redistributable or utility: it holds one of a fixed list of
/// substrings, compared without regard to ASCII case.
pub open spec fn spec_blacklisted(stem: Seq<char>) -> bool {
    ||| ci_contains(stem, "unins000"@)
    ||| ci_contains(stem, "uninstall"@)
    ||| ci_contains(stem, "setup"@)
    ||| ci_contains(stem, "install"@)
    ||| ci_contains(stem, "config"@)
    ||| ci_contains(stem, "setting"@)
    ||| ci_contains(stem, "updater"@)
    ||| ci_contains(stem, "launcher"@)
    ||| ci_contains(stem, "crash"@)
    ||| ci_contains(stem, "vc_redist"@)
    ||| ci_contains(stem, "dxsetup"@)
    ||| ci_contains(stem, "dxwebsetup"@)
    ||| ci_contains(stem, "dotnetfx"@)
}

/// Second-tier Chinese-localization indicator: `_cn` or `chinese` anywhere in
/// the path, or a path segment exactly `zh`.
pub open spec fn spec_cn_tier(path: Seq<char>) -> bool {
    ci_contains(path, "_cn"@) || ci_contains(path, "chinese"@) || has_zh_segment(path)
}

/// Points for a file of `size` bytes: one per KiB, capped.
pub open spec fn size_points(size: u64) -> int {
    vstd::math::min((size / 1024) as int, SIZE_POINTS_CAP as int)
}

/// The preference score of the executable at `path` inside a folder whose
/// base name is `dir_name`, when the file is `size` bytes long. A blacklisted
/// stem short-circuits to `BLACKLISTED_SCORE`; otherwise the localization,
/// affinity and size contributions are additive.
pub open spec fn spec_score(path: Seq<char>, dir_name: Seq<char>, size: u64) -> int {
    if spec_blacklisted(stem_of(base_name(path))) {
        BLACKLISTED_SCORE as int
    } else {
        (if ci_contains(path, "chs"@) {
            CHS_BONUS as int
        } else {
            0
        }) + (if spec_cn_tier(path) {
            CN_BONUS as int
        } else {
            0
        }) + (if dir_name.len() > 0 && ci_contains(stem_of(base_name(path)), dir_name) {
            NAME_AFFINITY_BONUS as int
        } else {
            0
        }) + size_points(size)
    }
}

fn blacklisted_stem(stem: &str) -> (b: bool)
    ensures
        b == spec_blacklisted(stem@),
{
    contains_ci(stem, "unins000") || contains_ci(stem, "uninstall") || contains_ci(stem, "setup")
        || contains_ci(stem, "install") || contains_ci(stem, "config") || contains_ci(
        stem,
        "setting",
    ) || contains_ci(stem, "updater") || contains_ci(stem, "launcher") || contains_ci(
        stem,
        "crash",
    ) || contains_ci(stem, "vc_redist") || contains_ci(stem, "dxsetup") || contains_ci(
        stem,
        "dxwebsetup",
    ) || contains_ci(stem, "dotnetfx")
}

/// Score one candidate executable. `dir_name` is the base name of the folder
/// under detection, and `size` the candidate's file size in bytes (zero when
/// the size could not be read).
pub fn score_exe(exe_path: &str, dir_name: &str, size: u64) -> (score: i64)
    ensures
        score == spec_score(exe_path@, dir_name@, size),
{
    let name = base_name_str(exe_path);
    let se = stem_and_ext(name);
    let stem = se.0;
    if blacklisted_stem(stem) {
        return BLACKLISTED_SCORE;
    }
    let mut score: i64 = 0;
    if contains_ci(exe_path, "chs") {
        score += CHS_BONUS;
    }
    if contains_ci(exe_path, "_cn") || contains_ci(exe_path, "chinese") || zh_segment(exe_path) {
        score += CN_BONUS;
    }
    if !dir_name.is_empty() && contains_ci(stem, dir_name) {
        score += NAME_AFFINITY_BONUS;
    }
    let kb = size / 1024;
    let pts: u64 = if kb > SIZE_POINTS_CAP {
        SIZE_POINTS_CAP
    } else {
        kb
    };
    score + (pts as i64)
}

} // verus!
