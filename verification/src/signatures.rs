//! Engine signature matcher: a fixed table of marker filenames, each the
//! hallmark of one authoring engine. A filename matches an entry only as a
//! whole and without regard to ASCII case; no substrings, no wildcards.

use vstd::prelude::*;

use crate::text::{ci_equal, eq_ci};

verus! {

/// The engine whose marker filename `fname` is, if any. The table pairs each
/// exact marker filename with the engine's display name; entries are tried in
/// order, and a filename equals at most one marker.
pub open spec fn spec_sig_match(fname: Seq<char>) -> Option<Seq<char>> {
    if ci_equal(fname, "data.xp3"@) {
        Some("KiriKiri"@)
    } else if ci_equal(fname, "data.xp4"@) {
        Some("KiriKiri"@)
    } else if ci_equal(fname, "arc.nsa"@) {
        Some("NScripter"@)
    } else if ci_equal(fname, "arc1.nsa"@) {
        Some("NScripter"@)
    } else if ci_equal(fname, "nscript.dat"@) {
        Some("NScripter"@)
    } else if ci_equal(fname, "BGI.exe"@) {
        Some("BGI/Ethornell"@)
    } else if ci_equal(fname, "Majiro.arc"@) {
        Some("Majiro"@)
    } else if ci_equal(fname, "rio.arc"@) {
        Some("Liar-soft"@)
    } else if ci_equal(fname, "UnityPlayer.dll"@) {
        Some("Unity"@)
    } else if ci_equal(fname, "GameAssembly.dll"@) {
        Some("Unity/IL2CPP"@)
    } else if ci_equal(fname, "AdvHD.exe"@) {
        Some("WillPlus AdvHD"@)
    } else if ci_equal(fname, "SiglusEngine.exe"@) {
        Some("SiglusEngine"@)
    } else if ci_equal(fname, "RealLive.exe"@) {
        Some("RealLive"@)
    } else if ci_equal(fname, "AGERC.DLL"@) {
        Some("AGE"@)
    } else if ci_equal(fname, "CatSystem2.exe"@) {
        Some("CatSystem2"@)
    } else if ci_equal(fname, "cg.mpk"@) {
        Some("Malie"@)
    } else if ci_equal(fname, "start.meg"@) {
        Some("Artemis"@)
    } else {
        None
    }
}

/// Look a filename up in the signature table.
pub fn match_engine_signature(fname: &str) -> (r: Option<String>)
    ensures
        r.deep_view() == spec_sig_match(fname@),
{
    if eq_ci(fname, "data.xp3") {
        Some("KiriKiri".to_owned())
    } else if eq_ci(fname, "data.xp4") {
        Some("KiriKiri".to_owned())
    } else if eq_ci(fname, "arc.nsa") {
        Some("NScripter".to_owned())
    } else if eq_ci(fname, "arc1.nsa") {
        Some("NScripter".to_owned())
    } else if eq_ci(fname, "nscript.dat") {
        Some("NScripter".to_owned())
    } else if eq_ci(fname, "BGI.exe") {
        Some("BGI/Ethornell".to_owned())
    } else if eq_ci(fname, "Majiro.arc") {
        Some("Majiro".to_owned())
    } else if eq_ci(fname, "rio.arc") {
        Some("Liar-soft".to_owned())
    } else if eq_ci(fname, "UnityPlayer.dll") {
        Some("Unity".to_owned())
    } else if eq_ci(fname, "GameAssembly.dll") {
        Some("Unity/IL2CPP".to_owned())
    } else if eq_ci(fname, "AdvHD.exe") {
        Some("WillPlus AdvHD".to_owned())
    } else if eq_ci(fname, "SiglusEngine.exe") {
        Some("SiglusEngine".to_owned())
    } else if eq_ci(fname, "RealLive.exe") {
        Some("RealLive".to_owned())
    } else if eq_ci(fname, "AGERC.DLL") {
        Some("AGE".to_owned())
    } else if eq_ci(fname, "CatSystem2.exe") {
        Some("CatSystem2".to_owned())
    } else if eq_ci(fname, "cg.mpk") {
        Some("Malie".to_owned())
    } else if eq_ci(fname, "start.meg") {
        Some("Artemis".to_owned())
    } else {
        None
    }
}

} // verus!
