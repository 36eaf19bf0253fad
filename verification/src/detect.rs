//! Folder detector and batch scanner. A caller walks one candidate folder
//! (the root, its children, and their children), records every entry it
//! could read, and hands the result in as a [`FolderWalk`]; everything the
//! detector decides from there is verified: which entries count as
//! executable candidates, which one is chosen, which engine is recorded,
//! and the order of batch results.

use vstd::prelude::*;

use crate::paths::{base_name, base_name_str, is_exe_name, is_exe_path};
use crate::score::{score_exe, spec_score};
use crate::signatures::{match_engine_signature, spec_sig_match};

verus! {

/// One filesystem entry seen during the walk of a candidate folder: its path
/// as given (file or directory alike), and its file size in bytes, zero when
/// the size could not be read.
#[derive(Debug, Clone)]
pub struct WalkEntry {
    pub path: String,
    pub size: u64,
}

pub ghost struct EntryView {
    pub path: Seq<char>,
    pub size: u64,
}

impl View for WalkEntry {
    type V = EntryView;

    open spec fn view(&self) -> EntryView {
        EntryView { path: self.path@, size: self.size }
    }
}

impl DeepView for WalkEntry {
    type V = EntryView;

    open spec fn deep_view(&self) -> EntryView {
        self@
    }
}

/// The outcome of walking one candidate folder: the folder's path verbatim,
/// whether it exists and is a directory, and the entries the walk visited,
/// in traversal order. When `is_dir` is false the entry list is empty.
#[derive(Debug, Clone)]
pub struct FolderWalk {
    pub path: String,
    pub is_dir: bool,
    pub entries: Vec<WalkEntry>,
}

pub ghost struct FolderWalkView {
    pub path: Seq<char>,
    pub is_dir: bool,
    pub entries: Seq<EntryView>,
}

impl View for FolderWalk {
    type V = FolderWalkView;

    open spec fn view(&self) -> FolderWalkView {
        FolderWalkView { path: self.path@, is_dir: self.is_dir, entries: self.entries.deep_view() }
    }
}

impl DeepView for FolderWalk {
    type V = FolderWalkView;

    open spec fn deep_view(&self) -> FolderWalkView {
        self@
    }
}

/// One detected game: the folder's base name as title, the chosen executable,
/// the folder itself, and the recognized engine, if any.
#[derive(Debug, Clone)]
pub struct DetectedGame {
    pub title: String,
    pub exe_path: String,
    pub install_path: String,
    pub engine: Option<String>,
}

pub ghost struct GameView {
    pub title: Seq<char>,
    pub exe_path: Seq<char>,
    pub install_path: Seq<char>,
    pub engine: Option<Seq<char>>,
}

impl View for DetectedGame {
    type V = GameView;

    open spec fn view(&self) -> GameView {
        GameView {
            title: self.title@,
            exe_path: self.exe_path@,
            install_path: self.install_path@,
            engine: self.engine.deep_view(),
        }
    }
}

impl DeepView for DetectedGame {
    type V = GameView;

    open spec fn deep_view(&self) -> GameView {
        self@
    }
}

/// The entry counts as an executable candidate: its base name has the
/// extension `exe` in any case mix.
pub open spec fn entry_is_exe(e: EntryView) -> bool {
    is_exe_name(base_name(e.path))
}

/// The entry's preference score within a folder whose base name is `dir`.
pub open spec fn entry_score(e: EntryView, dir: Seq<char>) -> int {
    spec_score(e.path, dir, e.size)
}

/// The engine the walk records: every entry's base name runs through the
/// signature table, and the last match in traversal order wins.
pub open spec fn spec_engine_of(es: Seq<EntryView>) -> Option<Seq<char>>
    decreases es.len(),
{
    if es.len() == 0 {
        None
    } else {
        match spec_sig_match(base_name(es.last().path)) {
            Some(e) => Some(e),
            None => spec_engine_of(es.drop_last()),
        }
    }
}

/// The index of the chosen executable among `es`: the first entry, in
/// traversal order, that achieves the maximum score among executable
/// entries; `None` when no entry is an executable.
pub open spec fn best_exe(es: Seq<EntryView>, dir: Seq<char>) -> Option<int>
    decreases es.len(),
{
    if es.len() == 0 {
        None
    } else {
        let prev = best_exe(es.drop_last(), dir);
        let l = es.len() - 1;
        if !entry_is_exe(es[l]) {
            prev
        } else {
            match prev {
                None => Some(l),
                Some(b) => if entry_score(es[l], dir) > entry_score(es[b], dir) {
                    Some(l)
                } else {
                    Some(b)
                },
            }
        }
    }
}

/// What `best_exe` picks: nothing exactly when no entry is an executable,
/// and otherwise the first executable entry achieving the maximum score.
pub proof fn lemma_best_exe(es: Seq<EntryView>, dir: Seq<char>)
    ensures
        best_exe(es, dir) is None <==> (forall|i: int|
            0 <= i < es.len() ==> !entry_is_exe(#[trigger] es[i])),
        best_exe(es, dir) matches Some(b) ==> {
            &&& 0 <= b < es.len()
            &&& entry_is_exe(es[b])
            &&& forall|j: int|
                0 <= j < es.len() && entry_is_exe(#[trigger] es[j]) ==> entry_score(es[j], dir)
                    <= entry_score(es[b], dir)
            &&& forall|j: int|
                0 <= j < b && entry_is_exe(#[trigger] es[j]) ==> entry_score(es[j], dir)
                    < entry_score(es[b], dir)
        },
    decreases es.len(),
{
    if es.len() > 0 {
        lemma_best_exe(es.drop_last(), dir);
        assert(forall|i: int| 0 <= i < es.len() - 1 ==> es.drop_last()[i] == es[i]);
    }
}

/// The detection result for one walked folder, if any.
pub open spec fn spec_detect(w: FolderWalkView) -> Option<GameView> {
    if !w.is_dir {
        None
    } else {
        match best_exe(w.entries, base_name(w.path)) {
            Some(b) => Some(
                GameView {
                    title: base_name(w.path),
                    exe_path: w.entries[b].path,
                    install_path: w.path,
                    engine: spec_engine_of(w.entries),
                },
            ),
            None => None,
        }
    }
}

/// The batch result: each walked folder's detection, in input order, with
/// folders that yield nothing silently omitted.
pub open spec fn spec_scan(ws: Seq<FolderWalkView>) -> Seq<GameView>
    decreases ws.len(),
{
    if ws.len() == 0 {
        Seq::empty()
    } else {
        spec_scan(ws.drop_last()) + (match spec_detect(ws.last()) {
            Some(g) => seq![g],
            None => Seq::empty(),
        })
    }
}

/// Detect a single game from one walked folder. The folder itself is the
/// game directory; its base name becomes the title. Returns nothing when
/// the folder is not a directory or no executable was seen in the walk.
pub fn detect_game_from_folder(walk: &FolderWalk) -> (r: Option<DetectedGame>)
    ensures
        r.deep_view() == spec_detect(walk@),
{
    if !walk.is_dir {
        return None;
    }
    let dir_name: &str = base_name_str(walk.path.as_str());
    let ghost es = walk.entries.deep_view();
    let ghost dir = base_name(walk.path@);
    let mut engine: Option<String> = None;
    let mut best: Option<usize> = None;
    let mut best_score: i64 = 0;
    let n = walk.entries.len();
    let mut i: usize = 0;
    while i < n
        invariant
            n == walk.entries.len(),
            es == walk.entries.deep_view(),
            dir == base_name(walk.path@),
            dir_name@ == dir,
            i <= n,
            engine.deep_view() == spec_engine_of(es.take(i as int)),
            best is Some <==> best_exe(es.take(i as int), dir) is Some,
            (best matches Some(b) ==> {
                &&& best_exe(es.take(i as int), dir) == Some(b as int)
                &&& b < i
                &&& best_score == entry_score(es[b as int], dir)
            }),
        decreases n - i,
    {
        let entry = &walk.entries[i];
        proof {
            assert(es[i as int] == walk.entries[i as int]@);
        }
        let fname = base_name_str(entry.path.as_str());
        let m = match_engine_signature(fname);
        if m.is_some() {
            engine = m;
        }
        if is_exe_path(entry.path.as_str()) {
            let s = score_exe(entry.path.as_str(), dir_name, entry.size);
            match best {
                None => {
                    best = Some(i);
                    best_score = s;
                },
                Some(_) => {
                    if s > best_score {
                        best = Some(i);
                        best_score = s;
                    }
                },
            }
        }
        proof {
            assert(es.take(i + 1).drop_last() =~= es.take(i as int));
            assert(es.take(i + 1).last() == es[i as int]);
        }
        i += 1;
    }
    proof {
        assert(es.take(n as int) =~= es);
    }
    match best {
        Some(b) => {
            let chosen = &walk.entries[b];
            proof {
                assert(es[b as int] == walk.entries[b as int]@);
            }
            Some(
                DetectedGame {
                    title: dir_name.to_owned(),
                    exe_path: chosen.path.clone(),
                    install_path: walk.path.clone(),
                    engine,
                },
            )
        },
        None => None,
    }
}

/// Detect games from a list of walked folders. Each folder is treated as one
/// game; folders that are missing, are not directories, or hold no
/// executable are skipped, and the detections keep the input order.
pub fn scan_games(walks: &Vec<FolderWalk>) -> (r: Vec<DetectedGame>)
    ensures
        r.deep_view() == spec_scan(walks.deep_view()),
{
    let mut games: Vec<DetectedGame> = Vec::new();
    let ghost ws = walks.deep_view();
    let n = walks.len();
    let mut i: usize = 0;
    while i < n
        invariant
            n == walks.len(),
            ws == walks.deep_view(),
            i <= n,
            games.deep_view() == spec_scan(ws.take(i as int)),
        decreases n - i,
    {
        let ghost before = games.deep_view();
        let g = detect_game_from_folder(&walks[i]);
        proof {
            assert(ws[i as int] == walks[i as int]@);
        }
        match g {
            Some(game) => {
                let ghost gv = game.deep_view();
                games.push(game);
                proof {
                    assert(games.deep_view() =~= before.push(gv));
                    assert(before.push(gv) =~= before + seq![gv]);
                }
            },
            None => {},
        }
        proof {
            assert(ws.take(i + 1).drop_last() =~= ws.take(i as int));
            assert(ws.take(i + 1).last() == ws[i as int]);
        }
        i += 1;
    }
    proof {
        assert(ws.take(n as int) =~= ws);
    }
    games
}

} // verus!
