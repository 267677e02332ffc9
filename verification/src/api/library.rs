//! The decisions of the library commands: starting and settling an archive
//! extraction, and repairing the library from the folders on disk. Reading
//! folders, extracting and scanning are the application's part.
use vstd::prelude::*;
use crate::text::{
    contains_any, any_occurs, split, join, views, chars_of, concat, string_from_chars, slice_to_vec, str_split,
    str_join,
};
use crate::unicode::{lowercase, to_lower, char_uppercase, upper_of_char};
use crate::engine::library_tracker::{
    LibraryGame, LibraryGameStatus, GameExecutable, any_launchable, is_best_executable, best_executable_index,
    generate_library_game_id, hex_of, default_hash,
};

verus! {

/// Phrases of error texts that mean the disk ran out of space.
pub open spec fn disk_full_error_phrases() -> Seq<Seq<char>> {
    seq!["disk is full"@, "no space left"@, "not enough space"@, "storage full"@,
        "insufficient disk space"@, "there is not enough space"@]
}

/// Whether an error text, lower-cased, tells of a full disk.
pub open spec fn disk_full_error(err: Seq<char>) -> bool {
    contains_any(lowercase(err), disk_full_error_phrases())
}

/// Whether an error text looks like a disk-full / out-of-space error.
pub fn is_disk_full_error(err: &str) -> (b: bool)
    ensures
        b == disk_full_error(err@),
{
    let s = to_lower(err);
    let phrases = vec!["disk is full", "no space left", "not enough space", "storage full",
        "insufficient disk space", "there is not enough space"];
    assert(phrases@.map_values(|p: &str| p@) =~= disk_full_error_phrases());
    any_occurs(s.as_str(), phrases.as_slice())
}

/// Whether an extraction starts for a game with status `status`: not while
/// one is already running (`None`, the call is ignored); otherwise with the
/// password given, else the one stored with the game.
pub fn extraction_start(status: LibraryGameStatus, password: Option<String>, stored: Option<String>) -> (r: Option<Option<String>>)
    ensures
        r is None <==> status == LibraryGameStatus::Extracting,
        r matches Some(p) ==> p == (if password is Some { password } else { stored }),
{
    if status == LibraryGameStatus::Extracting {
        None
    } else {
        match password {
            Some(p) => Some(Some(p)),
            None => Some(stored),
        }
    }
}

/// The error of an extraction that extracted no file.
pub open spec fn no_files_message() -> Seq<char> {
    "disk_space: Not enough disk space — no files were extracted."@
}

/// The game's executables after a scan: the list replaced, and a game without
/// a primary executable given the best launchable one, if any.
pub open spec fn with_executables(game: LibraryGame, exes: Seq<GameExecutable>, n: LibraryGame) -> bool {
    &&& n.executables@ == exes
    &&& if game.primary_exe is None && any_launchable(exes) {
        exists|b: int| is_best_executable(exes, b) && n.primary_exe == Some(exes[b].path)
    } else {
        n.primary_exe == game.primary_exe
    }
}

/// How an extraction ends for `game`: with the number of files extracted or
/// the extractor's error; with the executables found and the size installed.
/// An error marks the game corrupted and is reported, tagged `disk_space: `
/// when it tells of a full disk; no file extracted marks it corrupted with
/// the no-space message; otherwise the game takes the executables (choosing
/// a primary one when it had none), the size, and is ready.
pub fn extraction_outcome(game: LibraryGame, files: Result<u64, String>, exes: Vec<GameExecutable>, install_size: u64) -> (r: (LibraryGame, Result<(), String>))
    ensures
        match files {
            Err(e) => {
                &&& r.0 == (LibraryGame { status: LibraryGameStatus::Corrupted, ..game })
                &&& r.1 matches Err(m) && m@ == (if disk_full_error(e@) { "disk_space: "@ + e@ } else { e@ })
            },
            Ok(n) => if n == 0 {
                &&& r.0 == (LibraryGame { status: LibraryGameStatus::Corrupted, ..game })
                &&& r.1 matches Err(m) && m@ == no_files_message()
            } else {
                &&& r.0 == (LibraryGame {
                    executables: r.0.executables,
                    primary_exe: r.0.primary_exe,
                    install_size,
                    status: LibraryGameStatus::Ready,
                    ..game
                })
                &&& with_executables(game, exes@, r.0)
                &&& r.1 is Ok
            },
        },
{
    let mut game = game;
    match files {
        Err(e) => {
            game.status = LibraryGameStatus::Corrupted;
            let m = if is_disk_full_error(e.as_str()) { concat("disk_space: ", e.as_str()) } else { e };
            (game, Err(m))
        },
        Ok(n) => {
            if n == 0 {
                game.status = LibraryGameStatus::Corrupted;
                (game, Err("disk_space: Not enough disk space — no files were extracted.".to_string()))
            } else {
                if game.primary_exe.is_none() && exes.len() > 0 {
                    match best_executable_index(exes.as_slice()) {
                        Some(b) => {
                            game.primary_exe = Some(exes[b].path.clone());
                        },
                        None => {},
                    }
                }
                game.executables = exes;
                game.install_size = install_size;
                game.status = LibraryGameStatus::Ready;
                (game, Ok(()))
            }
        },
    }
}

/// A word with its first character upper-cased (`char::to_uppercase`).
pub open spec fn capitalized(w: Seq<char>) -> Seq<char> {
    if w.len() == 0 { w } else { char_uppercase(w[0]) + w.drop_first() }
}

/// The title of a game recovered from its folder's name: the name split on
/// `-`, each word capitalized, the words joined with spaces.
pub open spec fn slug_title(folder: Seq<char>) -> Seq<char> {
    join(split(folder, "-"@).map_values(|w: Seq<char>| capitalized(w)), " "@)
}

/// A word with its first character upper-cased.
fn capitalize(w: &str) -> (r: String)
    ensures
        r@ == capitalized(w@),
{
    let v = chars_of(w);
    if v.len() == 0 {
        return String::new();
    }
    let first = upper_of_char(v[0]);
    let rest = string_from_chars(slice_to_vec(v.as_slice(), 1, v.len()));
    assert(rest@ =~= w@.drop_first());
    concat(first.as_str(), rest.as_str())
}

/// The title of a game recovered from the folder named `folder`.
pub fn recovered_title(folder: &str) -> (r: String)
    ensures
        r@ == slug_title(folder@),
{
    let words = str_split(folder, "-");
    let ghost ws = views(words@);
    let mut caps: Vec<String> = Vec::new();
    let mut i: usize = 0;
    while i < words.len()
        invariant
            i <= words.len(),
            ws == views(words@),
            caps@.len() == i,
            forall|j: int| 0 <= j < i ==> (#[trigger] caps@[j])@ == capitalized(ws[j]),
        decreases words.len() - i,
    {
        let c = capitalize(words[i].as_str());
        caps.push(c);
        i = i + 1;
    }
    assert(views(caps@) =~= ws.map_values(|w: Seq<char>| capitalized(w)));
    str_join(caps.as_slice(), " ")
}

/// The source slug of recovered games.
pub open spec fn recovered_slug() -> Seq<char> {
    "recovered"@
}

/// A game found in the library folder `folder` but not tracked: identified
/// as a `recovered` game named after its folder, installed at `game_path`,
/// ready, with the executables found (the best launchable one primary), the
/// cover found, the size installed and the time it was recovered.
pub fn recovered_game(folder: &str, game_path: &str, cover: Option<String>, exes: Vec<GameExecutable>, install_size: u64, now: u64) -> (r: LibraryGame)
    ensures
        r.id@ == recovered_slug() + "_"@ + hex_of(default_hash(folder@) as nat),
        r.source_slug@ == recovered_slug(),
        r.source_game_id@ == folder@,
        r.title@ == slug_title(folder@),
        r.cover_url is None,
        r.cover_path == cover,
        r.install_path@ == game_path@,
        r.install_size == install_size,
        r.status == LibraryGameStatus::Ready,
        r.installed_at == now,
        r.last_played is None,
        r.total_playtime == 0,
        r.executables@ == exes@,
        match r.primary_exe {
            Some(p) => exists|b: int| is_best_executable(exes@, b) && p == exes@[b].path,
            None => !any_launchable(exes@),
        },
        r.archive_password is None,
        r.download_ids@.len() == 0,
{
    let id = generate_library_game_id("recovered", folder);
    let primary_exe = match best_executable_index(exes.as_slice()) {
        Some(b) => Some(exes[b].path.clone()),
        None => None,
    };
    LibraryGame {
        id,
        source_slug: "recovered".to_string(),
        source_game_id: folder.to_string(),
        title: recovered_title(folder),
        cover_url: None,
        cover_path: cover,
        install_path: game_path.to_string(),
        install_size,
        status: LibraryGameStatus::Ready,
        installed_at: now,
        last_played: None,
        total_playtime: 0,
        executables: exes,
        primary_exe,
        archive_password: None,
        download_ids: Vec::new(),
    }
}

/// Whether a tracked game's cover is missing: none recorded, or the recorded
/// file (`cover_exists` tells whether it is there) is gone.
pub open spec fn cover_missing(game: LibraryGame, cover_exists: bool) -> bool {
    game.cover_path is None || !cover_exists
}

/// Whether a tracked game's executables need a rescan: none, or no primary one.
pub open spec fn needs_rescan(game: LibraryGame) -> bool {
    game.executables@.len() == 0 || game.primary_exe is None
}

/// What a repair patches in a tracked game found in the library folder: the
/// cover found by the folder's slug, when the game's cover is missing; the
/// rescanned executables, when its executables needed a rescan and some were
/// found. The game counts as fixed when either is patched.
pub fn repair_patch(game: &LibraryGame, cover_exists: bool, found_cover: Option<String>, rescanned: Vec<GameExecutable>) -> (r: (Option<String>, Option<Vec<GameExecutable>>))
    ensures
        r.0 == (if cover_missing(*game, cover_exists) { found_cover } else { None }),
        match r.1 {
            Some(v) => needs_rescan(*game) && rescanned@.len() > 0 && v@ == rescanned@,
            None => !(needs_rescan(*game) && rescanned@.len() > 0),
        },
{
    let cover = if game.cover_path.is_none() || !cover_exists { found_cover } else { None };
    let exes = if (game.executables.len() == 0 || game.primary_exe.is_none()) && rescanned.len() > 0 {
        Some(rescanned)
    } else {
        None
    };
    (cover, exes)
}

/// The names of the cover files that may hold a slug's cached cover, in the
/// order they are looked for: `.jpg`, `.png`, `.webp`. Phase two of a repair
/// looks for the covers of games outside the library folder under the slug
/// of their title (`generate_game_slug`).
pub fn cover_file_names(slug: &str) -> (r: Vec<String>)
    ensures
        views(r@) == seq![slug@ + ".jpg"@, slug@ + ".png"@, slug@ + ".webp"@],
{
    let r = vec![concat(slug, ".jpg"), concat(slug, ".png"), concat(slug, ".webp")];
    assert(views(r@) =~= seq![slug@ + ".jpg"@, slug@ + ".png"@, slug@ + ".webp"@]);
    r
}

/// Whether a repair patch changed the game (it then counts among the fixed).
pub fn counts_as_fixed(patch: &(Option<String>, Option<Vec<GameExecutable>>)) -> (b: bool)
    ensures
        b == (patch.0 is Some || patch.1 is Some),
{
    patch.0.is_some() || patch.1.is_some()
}

/// A game folder found in a library folder, with what the application read
/// from disk about it: the folder's name, its `game` directory, the cover
/// cached under the folder's name (if any), the executables found in it and
/// its size.
#[derive(Debug)]
pub struct FolderScan {
    pub folder: String,
    pub game_path: String,
    pub cover: Option<String>,
    pub executables: Vec<GameExecutable>,
    pub install_size: u64,
}

/// The path of the best launchable executable.
pub open spec fn best_path(v: Seq<GameExecutable>) -> String {
    v[choose|b: int| is_best_executable(v, b)].path
}

/// There is one best launchable executable.
proof fn lemma_best_unique(v: Seq<GameExecutable>, a: int, b: int)
    requires
        is_best_executable(v, a),
        is_best_executable(v, b),
    ensures
        a == b,
{
    if a < b {
        assert(v[b].score_bits < v[a].score_bits);
    } else if b < a {
        assert(v[a].score_bits < v[b].score_bits);
    }
}

/// A game with a new list of executables; a game without a primary
/// executable takes the best launchable one (what `set_executables` does).
pub open spec fn with_new_executables(g: LibraryGame, v: Vec<GameExecutable>) -> LibraryGame {
    LibraryGame {
        primary_exe: if g.primary_exe is None && any_launchable(v@) { Some(best_path(v@)) } else { g.primary_exe },
        executables: v,
        ..g
    }
}

/// A game with a cover file recorded.
pub open spec fn with_cover(g: LibraryGame, c: String) -> LibraryGame {
    LibraryGame { cover_path: Some(c), ..g }
}

/// What a scan patches in the tracked game it matches, judged on the game as
/// it was before the repair (`repair_patch`).
pub open spec fn scan_patch(old: LibraryGame, cover_exists: bool, s: FolderScan) -> (Option<String>, Option<Vec<GameExecutable>>) {
    (
        if cover_missing(old, cover_exists) { s.cover } else { None },
        if needs_rescan(old) && s.executables@.len() > 0 { Some(s.executables) } else { None },
    )
}

/// A game with a patch applied.
pub open spec fn patched(g: LibraryGame, p: (Option<String>, Option<Vec<GameExecutable>>)) -> LibraryGame {
    let g1 = match p.0 { Some(c) => with_cover(g, c), None => g };
    match p.1 { Some(v) => with_new_executables(g1, v), None => g1 }
}

/// The last of the first `n` games installed at `path` (install paths resolved).
pub open spec fn last_with_path(paths: Seq<String>, path: Seq<char>, n: int) -> Option<int>
    decreases n,
{
    if n <= 0 || n > paths.len() {
        None
    } else if paths[n - 1]@ == path {
        Some(n - 1)
    } else {
        last_with_path(paths, path, n - 1)
    }
}

/// The first phase of a repair, over the first `n` scans: a scan whose game
/// directory is a tracked game's install path patches that game (counted
/// when the patch changes it) and marks it handled; any other scan is set
/// aside to be added as a recovered game. Gives the games, the count, the
/// handled marks and the scans set aside.
pub open spec fn phase_one(old: Seq<LibraryGame>, paths: Seq<String>, exists: Seq<bool>, scans: Seq<FolderScan>, n: int)
    -> (Seq<LibraryGame>, nat, Seq<bool>, Seq<FolderScan>)
    decreases n,
{
    if n <= 0 || n > scans.len() {
        (old, 0, Seq::new(old.len(), |i: int| false), Seq::empty())
    } else {
        let (cur, c, h, u) = phase_one(old, paths, exists, scans, n - 1);
        let s = scans[n - 1];
        match last_with_path(paths, s.game_path@, paths.len() as int) {
            Some(i) => {
                let p = scan_patch(old[i], exists[i], s);
                (cur.update(i, patched(cur[i], p)), if p.0 is Some || p.1 is Some { c + 1 } else { c }, h.update(i, true), u)
            },
            None => (cur, c, h, u.push(s)),
        }
    }
}

/// The second phase of a repair, over the first `n` tracked games: each one
/// not handled in the first phase whose cover is missing takes the cover
/// cached under its title's slug, when there is one (counted).
pub open spec fn phase_two(cur: Seq<LibraryGame>, old: Seq<LibraryGame>, exists: Seq<bool>, slug_covers: Seq<Option<String>>, handled: Seq<bool>, n: int)
    -> (Seq<LibraryGame>, nat)
    decreases n,
{
    if n <= 0 {
        (cur, 0)
    } else {
        let (g, c) = phase_two(cur, old, exists, slug_covers, handled, n - 1);
        let i = n - 1;
        if !handled[i] && cover_missing(old[i], exists[i]) && slug_covers[i] is Some {
            (g.update(i, with_cover(g[i], slug_covers[i]->0)), c + 1)
        } else {
            (g, c)
        }
    }
}

/// Whether `g` is the game recovered from scan `s` at time `now` (`recovered_game`).
pub open spec fn is_recovered(g: LibraryGame, s: FolderScan, now: u64) -> bool {
    &&& g.id@ == recovered_slug() + "_"@ + hex_of(default_hash(s.folder@) as nat)
    &&& g.source_slug@ == recovered_slug()
    &&& g.source_game_id@ == s.folder@
    &&& g.title@ == slug_title(s.folder@)
    &&& g.cover_url is None
    &&& g.cover_path == s.cover
    &&& g.install_path@ == s.game_path@
    &&& g.install_size == s.install_size
    &&& g.status == LibraryGameStatus::Ready
    &&& g.installed_at == now
    &&& g.last_played is None
    &&& g.total_playtime == 0
    &&& g.executables@ == s.executables@
    &&& match g.primary_exe {
        Some(p) => exists|b: int| is_best_executable(s.executables@, b) && p == s.executables@[b].path,
        None => !any_launchable(s.executables@),
    }
    &&& g.archive_password is None
    &&& g.download_ids@.len() == 0
}

/// Whether `new` and `n` are the games and the count a repair gives: the
/// tracked games patched (first phase) and given slug covers (second phase),
/// followed by a recovered game for each untracked folder in scan order; the
/// count is the patches, the covers found and the games added.
pub open spec fn repaired(old: Seq<LibraryGame>, paths: Seq<String>, exists: Seq<bool>, scans: Seq<FolderScan>,
    slug_covers: Seq<Option<String>>, now: u64, new: Seq<LibraryGame>, n: nat) -> bool
{
    let (cur, c1, h, u) = phase_one(old, paths, exists, scans, scans.len() as int);
    let (fin, c2) = phase_two(cur, old, exists, slug_covers, h, old.len() as int);
    &&& new.len() == old.len() + u.len()
    &&& new.subrange(0, old.len() as int) == fin
    &&& forall|k: int| 0 <= k < u.len() ==> is_recovered(#[trigger] new[old.len() + k], u[k], now)
    &&& n == c1 + c2 + u.len()
}

/// The index of the last game installed at `path`.
fn last_index_with_path(paths: &Vec<String>, path: &str) -> (r: Option<usize>)
    ensures
        match r {
            Some(i) => last_with_path(paths@, path@, paths@.len() as int) == Some(i as int) && i < paths@.len(),
            None => last_with_path(paths@, path@, paths@.len() as int) is None,
        },
{
    let mut n = paths.len();
    while n > 0
        invariant
            n <= paths@.len(),
            last_with_path(paths@, path@, paths@.len() as int) == last_with_path(paths@, path@, n as int),
        decreases n,
    {
        if crate::text::str_eq(paths[n - 1].as_str(), path) {
            return Some(n - 1);
        }
        n = n - 1;
    }
    None
}

/// A game with a patch applied.
fn apply_patch(g: LibraryGame, cover: Option<String>, exes: Option<Vec<GameExecutable>>) -> (r: LibraryGame)
    ensures
        r == patched(g, (cover, exes)),
{
    let mut g = g;
    if let Some(c) = cover {
        g.cover_path = Some(c);
    }
    if let Some(v) = exes {
        if g.primary_exe.is_none() {
            match best_executable_index(v.as_slice()) {
                Some(b) => {
                    proof {
                        let c = choose|c: int| is_best_executable(v@, c);
                        lemma_best_unique(v@, b as int, c);
                    }
                    g.primary_exe = Some(v[b].path.clone());
                },
                None => {},
            }
        }
        g.executables = v;
    }
    g
}

/// Repairs the library from the game folders found on disk: `games` are the
/// tracked games, `install_paths` their install paths resolved, `cover_exists`
/// whether each one's recorded cover file is there, `scans` the game folders
/// of the library folder, `slug_covers` the cover cached under each game's
/// title slug, and `now` the time. Tracked games found in a folder are
/// patched, the others get a slug cover when theirs is missing, and each
/// untracked folder is added as a recovered game; the result is how many
/// entries were added or updated.
pub fn repair_games(
    games: &mut Vec<LibraryGame>,
    install_paths: &Vec<String>,
    cover_exists: &Vec<bool>,
    scans: Vec<FolderScan>,
    slug_covers: &Vec<Option<String>>,
    now: u64,
) -> (n: usize)
    requires
        install_paths@.len() == old(games)@.len(),
        cover_exists@.len() == old(games)@.len(),
        slug_covers@.len() == old(games)@.len(),
        old(games)@.len() + scans@.len() <= usize::MAX,
    ensures
        repaired(old(games)@, install_paths@, cover_exists@, scans@, slug_covers@, now, final(games)@, n as nat),
{
    let ghost old_g = games@;
    let ghost all = scans@;
    let ghost paths = install_paths@;
    let ghost ex = cover_exists@;
    let m = games.len();
    let total = scans.len();
    let mut missing: Vec<bool> = Vec::new();
    let mut needs: Vec<bool> = Vec::new();
    let mut handled: Vec<bool> = Vec::new();
    let mut i: usize = 0;
    while i < m
        invariant
            m == games@.len(),
            games@ == old_g,
            ex == cover_exists@,
            ex.len() == m,
            i <= m,
            missing@.len() == i,
            needs@.len() == i,
            handled@.len() == i,
            forall|k: int| 0 <= k < i ==> #[trigger] missing@[k] == cover_missing(old_g[k], ex[k]),
            forall|k: int| 0 <= k < i ==> #[trigger] needs@[k] == needs_rescan(old_g[k]),
            forall|k: int| 0 <= k < i ==> !#[trigger] handled@[k],
        decreases m - i,
    {
        missing.push(games[i].cover_path.is_none() || !cover_exists[i]);
        needs.push(games[i].executables.len() == 0 || games[i].primary_exe.is_none());
        handled.push(false);
        i = i + 1;
    }
    assert(handled@ =~= Seq::new(m as nat, |k: int| false));
    let mut scans = scans;
    let mut count: usize = 0;
    let mut added: usize = 0;
    let mut j: usize = 0;
    assert(all.subrange(0, total as int) =~= all);
    while scans.len() > 0
        invariant
            m == old_g.len(),
            paths == install_paths@,
            paths.len() == m,
            ex == cover_exists@,
            ex.len() == m,
            total == all.len(),
            m + total <= usize::MAX,
            j <= total,
            scans@ == all.subrange(j as int, total as int),
            missing@.len() == m,
            needs@.len() == m,
            handled@.len() == m,
            forall|k: int| 0 <= k < m ==> #[trigger] missing@[k] == cover_missing(old_g[k], ex[k]),
            forall|k: int| 0 <= k < m ==> #[trigger] needs@[k] == needs_rescan(old_g[k]),
            ({
                let (cur, c, h, u) = phase_one(old_g, paths, ex, all, j as int);
                &&& games@.len() == m + u.len()
                &&& games@.subrange(0, m as int) == cur
                &&& cur.len() == m
                &&& forall|k: int| 0 <= k < u.len() ==> is_recovered(#[trigger] games@[m + k], u[k], now)
                &&& count == c
                &&& handled@ == h
                &&& added == u.len()
                &&& c + u.len() <= j
            }),
        decreases scans@.len(),
    {
        let ghost before = phase_one(old_g, paths, ex, all, j as int);
        let ghost gs = games@;
        let s = scans.remove(0);
        assert(s == all[j as int]);
        match last_index_with_path(install_paths, s.game_path.as_str()) {
            Some(i) => {
                proof {
                    assert(gs.subrange(0, m as int)[i as int] == gs[i as int]);
                }
                let cover = if missing[i] { s.cover } else { None };
                let exes = if needs[i] && s.executables.len() > 0 { Some(s.executables) } else { None };
                let fixed = cover.is_some() || exes.is_some();
                let g = games.remove(i);
                let ng = apply_patch(g, cover, exes);
                games.insert(i, ng);
                handled.set(i, true);
                if fixed {
                    count = count + 1;
                }
                proof {
                    let after = phase_one(old_g, paths, ex, all, j + 1);
                    assert(games@.subrange(0, m as int) =~= after.0);
                    assert forall|k: int| 0 <= k < before.3.len() implies is_recovered(#[trigger] games@[m + k], before.3[k], now) by {
                        assert(games@[m + k] == gs[m + k]);
                    }
                }
            },
            None => {
                let r = recovered_game(s.folder.as_str(), s.game_path.as_str(), s.cover, s.executables, s.install_size, now);
                games.push(r);
                added = added + 1;
                proof {
                    let after = phase_one(old_g, paths, ex, all, j + 1);
                    assert(games@.subrange(0, m as int) =~= gs.subrange(0, m as int));
                    assert forall|k: int| 0 <= k < after.3.len() implies is_recovered(#[trigger] games@[m + k], after.3[k], now) by {
                        if k < before.3.len() {
                            assert(games@[m + k] == gs[m + k]);
                        }
                    }
                }
            },
        }
        j = j + 1;
        proof {
            assert(scans@ =~= all.subrange(j as int, total as int));
        }
    }
    let ghost p1 = phase_one(old_g, paths, ex, all, total as int);
    let mut covers: usize = 0;
    let mut i: usize = 0;
    while i < m
        invariant
            m == old_g.len(),
            i <= m,
            ex == cover_exists@,
            ex.len() == m,
            slug_covers@.len() == m,
            missing@.len() == m,
            handled@.len() == m,
            forall|k: int| 0 <= k < m ==> #[trigger] missing@[k] == cover_missing(old_g[k], ex[k]),
            handled@ == p1.2,
            p1.0.len() == m,
            games@.len() == m + p1.3.len(),
            forall|k: int| 0 <= k < p1.3.len() ==> is_recovered(#[trigger] games@[m + k], p1.3[k], now),
            games@.subrange(0, m as int) == phase_two(p1.0, old_g, ex, slug_covers@, p1.2, i as int).0,
            covers == phase_two(p1.0, old_g, ex, slug_covers@, p1.2, i as int).1,
            covers <= i,
        decreases m - i,
    {
        let ghost gs = games@;
        if !handled[i] && missing[i] {
            match &slug_covers[i] {
                Some(c) => {
                    let mut g = games.remove(i);
                    g.cover_path = Some(c.clone());
                    games.insert(i, g);
                    covers = covers + 1;
                    proof {
                        assert(gs.subrange(0, m as int)[i as int] == gs[i as int]);
                        assert(games@.subrange(0, m as int) =~= phase_two(p1.0, old_g, ex, slug_covers@, p1.2, i + 1).0);
                        assert forall|k: int| 0 <= k < p1.3.len() implies is_recovered(#[trigger] games@[m + k], p1.3[k], now) by {
                            assert(games@[m + k] == gs[m + k]);
                        }
                    }
                },
                None => {},
            }
        }
        i = i + 1;
    }
    count + covers + added
}

} // verus!
