//! The detection engine's guarantees, stated and proved over the spec model:
//! score ordering between the tiers, the dominance of the blacklist, the
//! dominance of the `chs` localization bonus, and the independence of engine
//! recognition from the choice of executable.

use vstd::prelude::*;

use crate::detect::{
    best_exe, entry_is_exe, entry_score, lemma_best_exe, spec_detect, spec_engine_of, spec_scan,
    EntryView, FolderWalkView,
};
use crate::paths::{base_name, stem_of};
use crate::score::{
    spec_blacklisted, spec_score, BLACKLISTED_SCORE, CHS_BONUS, CN_BONUS, NAME_AFFINITY_BONUS,
    SIZE_POINTS_CAP,
};
use crate::signatures::spec_sig_match;
use crate::text::ci_contains;

verus! {

/// The entry's stem holds a blacklist marker.
pub open spec fn entry_blacklisted(e: EntryView) -> bool {
    spec_blacklisted(stem_of(base_name(e.path)))
}

/// A blacklisted executable scores exactly the sentinel, and any other
/// executable scores within `[0, CHS_BONUS + CN_BONUS + NAME_AFFINITY_BONUS
/// + SIZE_POINTS_CAP]`: each tier's bonus exceeds everything the lower tiers
/// can add up to, and the sentinel lies below all of it.
pub proof fn lemma_score_range(path: Seq<char>, dir_name: Seq<char>, size: u64)
    ensures
        spec_blacklisted(stem_of(base_name(path))) ==> spec_score(path, dir_name, size)
            == BLACKLISTED_SCORE as int,
        !spec_blacklisted(stem_of(base_name(path))) ==> 0 <= spec_score(path, dir_name, size) <= (
        CHS_BONUS + CN_BONUS + NAME_AFFINITY_BONUS) as int + SIZE_POINTS_CAP as int,
{
}

/// A folder whose walk saw no executable entry yields no detection.
pub proof fn lemma_no_executable_no_detection(w: FolderWalkView)
    requires
        forall|i: int| 0 <= i < w.entries.len() ==> !entry_is_exe(#[trigger] w.entries[i]),
    ensures
        spec_detect(w) is None,
{
    lemma_best_exe(w.entries, base_name(w.path));
}

/// A folder whose walk saw at least one executable entry, and which is a
/// directory, always yields a detection.
pub proof fn lemma_executable_yields_detection(w: FolderWalkView, i: int)
    requires
        w.is_dir,
        0 <= i < w.entries.len(),
        entry_is_exe(w.entries[i]),
    ensures
        spec_detect(w) is Some,
{
    lemma_best_exe(w.entries, base_name(w.path));
}

/// When exactly one executable entry is not blacklisted, it is the one
/// chosen, whatever the names and sizes of the others.
pub proof fn lemma_sole_candidate_chosen(w: FolderWalkView, i: int)
    requires
        w.is_dir,
        0 <= i < w.entries.len(),
        entry_is_exe(w.entries[i]),
        !entry_blacklisted(w.entries[i]),
        forall|j: int|
            0 <= j < w.entries.len() && j != i && entry_is_exe(#[trigger] w.entries[j])
                ==> entry_blacklisted(w.entries[j]),
    ensures
        spec_detect(w) matches Some(g) && g.exe_path == w.entries[i].path,
{
    let dir = base_name(w.path);
    lemma_best_exe(w.entries, dir);
    let b = best_exe(w.entries, dir)->0;
    lemma_score_range(w.entries[i].path, dir, w.entries[i].size);
    lemma_score_range(w.entries[b].path, dir, w.entries[b].size);
    assert(entry_score(w.entries[i], dir) <= entry_score(w.entries[b], dir));
}

/// A blacklisted executable is never chosen while any non-blacklisted one is
/// present, regardless of relative file sizes: the chosen executable is then
/// itself non-blacklisted.
pub proof fn lemma_blacklisted_never_chosen(w: FolderWalkView, i: int)
    requires
        w.is_dir,
        0 <= i < w.entries.len(),
        entry_is_exe(w.entries[i]),
        !entry_blacklisted(w.entries[i]),
    ensures
        spec_detect(w) matches Some(g) && (exists|b: int|
            0 <= b < w.entries.len() && entry_is_exe(#[trigger] w.entries[b])
                && !entry_blacklisted(w.entries[b]) && g.exe_path == w.entries[b].path),
{
    let dir = base_name(w.path);
    lemma_best_exe(w.entries, dir);
    let b = best_exe(w.entries, dir)->0;
    lemma_score_range(w.entries[i].path, dir, w.entries[i].size);
    lemma_score_range(w.entries[b].path, dir, w.entries[b].size);
    assert(entry_score(w.entries[i], dir) <= entry_score(w.entries[b], dir));
    assert(entry_is_exe(w.entries[b]) && !entry_blacklisted(w.entries[b]) && (spec_detect(
        w,
    )->0).exe_path == w.entries[b].path);
}

/// A non-blacklisted path holding `chs` strictly outranks every path without
/// `chs`, whatever the folders and sizes: the capped size bonus and the lower
/// localization and affinity bonuses together stay below `CHS_BONUS`.
pub proof fn lemma_chs_outranks(
    p1: Seq<char>,
    d1: Seq<char>,
    s1: u64,
    p2: Seq<char>,
    d2: Seq<char>,
    s2: u64,
)
    requires
        !spec_blacklisted(stem_of(base_name(p1))),
        ci_contains(p1, "chs"@),
        !ci_contains(p2, "chs"@),
    ensures
        spec_score(p1, d1, s1) > spec_score(p2, d2, s2),
{
    lemma_score_range(p2, d2, s2);
}

/// Engine recognition reads only the entries' paths: walks that visit the
/// same paths record the same engine, whatever the file sizes (and hence
/// whichever executable the scorer ends up choosing).
pub proof fn lemma_engine_ignores_sizes(es1: Seq<EntryView>, es2: Seq<EntryView>)
    requires
        es1.len() == es2.len(),
        forall|i: int| 0 <= i < es1.len() ==> (#[trigger] es1[i]).path == es2[i].path,
    ensures
        spec_engine_of(es1) == spec_engine_of(es2),
    decreases es1.len(),
{
    if es1.len() > 0 {
        assert(forall|i: int|
            0 <= i < es1.len() - 1 ==> (#[trigger] es1.drop_last()[i]).path
                == es2.drop_last()[i].path);
        lemma_engine_ignores_sizes(es1.drop_last(), es2.drop_last());
    }
}

/// A marker file anywhere in the walk sets the engine, wherever the chosen
/// executable sits: when entry `k` matches the signature table and no later
/// entry does, the recorded engine is exactly entry `k`'s match.
pub proof fn lemma_marker_sets_engine(es: Seq<EntryView>, k: int)
    requires
        0 <= k < es.len(),
        spec_sig_match(base_name(es[k].path)) is Some,
        forall|j: int| k < j < es.len() ==> spec_sig_match(base_name((#[trigger] es[j]).path)) is None,
    ensures
        spec_engine_of(es) == spec_sig_match(base_name(es[k].path)),
    decreases es.len(),
{
    if k < es.len() - 1 {
        assert(forall|i: int| 0 <= i < es.len() - 1 ==> es.drop_last()[i] == es[i]);
        lemma_marker_sets_engine(es.drop_last(), k);
    }
}

/// The engine of a detection is the walk's recorded engine, independent of
/// which executable was chosen.
pub proof fn lemma_engine_independent_of_choice(w: FolderWalkView)
    requires
        spec_detect(w) is Some,
    ensures
        spec_detect(w) matches Some(g) && g.engine == spec_engine_of(w.entries),
{
}

/// Every detection is well formed: the install path is the input folder
/// verbatim, the title is that folder's base name, the engine is the walk's
/// recorded engine, and the chosen executable is one of the executable
/// entries the walk discovered.
pub proof fn lemma_detection_well_formed(w: FolderWalkView)
    requires
        spec_detect(w) is Some,
    ensures
        spec_detect(w) matches Some(g) && {
            &&& g.install_path == w.path
            &&& g.title == base_name(w.path)
            &&& g.engine == spec_engine_of(w.entries)
            &&& exists|i: int|
                0 <= i < w.entries.len() && entry_is_exe(#[trigger] w.entries[i]) && g.exe_path
                    == w.entries[i].path
        },
{
    let dir = base_name(w.path);
    lemma_best_exe(w.entries, dir);
    let b = best_exe(w.entries, dir)->0;
    assert(entry_is_exe(w.entries[b]) && (spec_detect(w)->0).exe_path == w.entries[b].path);
}

/// A folder that yields no detection leaves no trace in a batch scan: the
/// scan of the whole list equals the scan of the list with it removed.
pub proof fn lemma_scan_skips_undetected(ws: Seq<FolderWalkView>, k: int)
    requires
        0 <= k < ws.len(),
        spec_detect(ws[k]) is None,
    ensures
        spec_scan(ws) == spec_scan(ws.remove(k)),
    decreases ws.len(),
{
    if k == ws.len() - 1 {
        assert(ws.remove(k) =~= ws.drop_last());
    } else {
        assert(ws.remove(k).drop_last() =~= ws.drop_last().remove(k));
        assert(ws.drop_last()[k] == ws[k]);
        lemma_scan_skips_undetected(ws.drop_last(), k);
        assert(ws.remove(k).last() == ws.last());
    }
}

} // verus!
