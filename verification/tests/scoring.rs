use galscan::score::score_exe;
use galscan::signatures::match_engine_signature;

#[test]
fn blacklisted_stem_scores_sentinel() {
    assert_eq!(score_exe("Game/setup.exe", "Game", 10240), -1_000_000);
    assert_eq!(score_exe("Game/unins000.exe", "Game", 512_000), -1_000_000);
    assert_eq!(score_exe("Game/MyUpdater.exe", "Game", 0), -1_000_000);
    assert_eq!(score_exe("Game/vc_redist_x64.exe", "Game", 0), -1_000_000);
    assert_eq!(score_exe("Game/dxwebsetup.exe", "Game", 0), -1_000_000);
}

#[test]
fn blacklist_is_case_insensitive() {
    assert_eq!(score_exe("Game/UNINS000.exe", "Game", 0), -1_000_000);
    assert_eq!(score_exe("Game/Setup.exe", "Game", 0), -1_000_000);
    assert_eq!(score_exe("Game/CrashReporter.exe", "Game", 0), -1_000_000);
}

#[test]
fn blacklist_dominates_all_bonuses() {
    // chs bonus, affinity and a large size cannot rescue a blacklisted stem
    assert_eq!(score_exe("Game/chs/setup.exe", "setup", u64::MAX), -1_000_000);
}

#[test]
fn chs_bonus_exact() {
    assert_eq!(score_exe("Foo/chs/run.exe", "Foo", 0), 100_000);
    assert_eq!(score_exe("Foo/CHS/run.exe", "Foo", 0), 100_000);
}

#[test]
fn cn_tier_exact() {
    assert_eq!(score_exe("Foo/game_cn.exe", "", 0), 50_000);
    assert_eq!(score_exe("Foo/ChineseVersion/game.exe", "", 0), 50_000);
    assert_eq!(score_exe("Foo/zh/game.exe", "", 0), 50_000);
    assert_eq!(score_exe("Foo\\zh\\game.exe", "", 0), 50_000);
}

#[test]
fn zh_needs_separators_on_both_sides() {
    assert_eq!(score_exe("Foozh/game.exe", "", 0), 0);
    assert_eq!(score_exe("Foo/zhgame.exe", "", 0), 0);
}

#[test]
fn chs_and_cn_tiers_are_additive() {
    assert_eq!(score_exe("Foo/chs_cn/game.exe", "", 0), 150_000);
}

#[test]
fn name_affinity_exact() {
    assert_eq!(score_exe("MyGame/MyGame.exe", "MyGame", 0), 10_000);
    // affinity is a substring test on the stem, in either case mix
    assert_eq!(score_exe("MyGame/mygame_full.exe", "MYGAME", 0), 10_000);
    assert_eq!(score_exe("MyGame/start.exe", "MyGame", 0), 0);
}

#[test]
fn empty_folder_name_gives_no_affinity() {
    assert_eq!(score_exe("X/X.exe", "", 0), 0);
}

#[test]
fn size_points_per_kib_and_cap() {
    assert_eq!(score_exe("a/b.exe", "", 500 * 1024), 500);
    assert_eq!(score_exe("a/b.exe", "", 1023), 0);
    assert_eq!(score_exe("a/b.exe", "", 20_000 * 1024), 9_999);
    assert_eq!(score_exe("a/b.exe", "", u64::MAX), 9_999);
}

#[test]
fn all_bonuses_sum() {
    // chs + cn tier + affinity + capped size
    assert_eq!(
        score_exe("Foo/chs_cn/Foo.exe", "Foo", 20_000 * 1024),
        100_000 + 50_000 + 10_000 + 9_999
    );
}

#[test]
fn signature_table_lookups() {
    assert_eq!(match_engine_signature("data.xp3"), Some("KiriKiri".to_string()));
    assert_eq!(match_engine_signature("data.xp4"), Some("KiriKiri".to_string()));
    assert_eq!(match_engine_signature("arc.nsa"), Some("NScripter".to_string()));
    assert_eq!(match_engine_signature("nscript.dat"), Some("NScripter".to_string()));
    assert_eq!(match_engine_signature("BGI.exe"), Some("BGI/Ethornell".to_string()));
    assert_eq!(match_engine_signature("Majiro.arc"), Some("Majiro".to_string()));
    assert_eq!(match_engine_signature("rio.arc"), Some("Liar-soft".to_string()));
    assert_eq!(match_engine_signature("UnityPlayer.dll"), Some("Unity".to_string()));
    assert_eq!(match_engine_signature("GameAssembly.dll"), Some("Unity/IL2CPP".to_string()));
    assert_eq!(match_engine_signature("AdvHD.exe"), Some("WillPlus AdvHD".to_string()));
    assert_eq!(match_engine_signature("SiglusEngine.exe"), Some("SiglusEngine".to_string()));
    assert_eq!(match_engine_signature("RealLive.exe"), Some("RealLive".to_string()));
    assert_eq!(match_engine_signature("AGERC.DLL"), Some("AGE".to_string()));
    assert_eq!(match_engine_signature("CatSystem2.exe"), Some("CatSystem2".to_string()));
    assert_eq!(match_engine_signature("cg.mpk"), Some("Malie".to_string()));
    assert_eq!(match_engine_signature("start.meg"), Some("Artemis".to_string()));
}

#[test]
fn signature_match_is_case_insensitive() {
    assert_eq!(match_engine_signature("DATA.XP3"), Some("KiriKiri".to_string()));
    assert_eq!(match_engine_signature("agerc.dll"), Some("AGE".to_string()));
    assert_eq!(match_engine_signature("unityplayer.DLL"), Some("Unity".to_string()));
}

#[test]
fn signature_match_is_whole_name_only() {
    assert_eq!(match_engine_signature("random.txt"), None);
    assert_eq!(match_engine_signature("mydata.xp3"), None);
    assert_eq!(match_engine_signature("data.xp3.bak"), None);
    assert_eq!(match_engine_signature(""), None);
}
