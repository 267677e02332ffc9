//! Recognising the executables of an installed game by their names and
//! folders: installers, redistributables, launchers, title matches, and the
//! order in which scored executables are offered.
use vstd::prelude::*;
use crate::text::{byte_len, at_least_three_bytes, contains, contains_any, any_occurs, has_prefix, words, join, views, chars_of, string_from_chars, str_contains,
    str_words, str_join, str_starts_with, is_whitespace, is_ws};
use crate::unicode::{lowercase, alphanumeric, to_lower, is_alphanumeric};
use crate::order::chained;
use crate::engine::library_tracker::{GameExecutable, ExeType, launchable, is_best_executable,
    any_launchable, best_executable_index};

verus! {

/// Name fragments of installers.
pub open spec fn installer_patterns() -> Seq<Seq<char>> {
    seq!["unins"@, "setup"@, "install"@, "uninstall"@, "update"@, "patch"@, "autorun"@,
        "launcher_setup"@, "installer"@, "uninst"@, "remove"@]
}

/// Name fragments of redistributables.
pub open spec fn redist_patterns() -> Seq<Seq<char>> {
    seq!["vcredist"@, "vc_redist"@, "dxsetup"@, "dxwebsetup"@, "dotnet"@, "physx"@, "oalinst"@,
        "openal"@, "directx"@, "visual"@, "xnafx"@, "msvc"@, "redistributable"@, "prereq"@,
        "vc20"@, "d3d"@, "easyanticheat_setup"@]
}

/// Folder names that hold redistributables.
pub open spec fn redist_dirs() -> Seq<Seq<char>> {
    seq!["_commonredist"@, "commonredist"@, "redist"@, "redistributables"@, "directx"@,
        "vcredist"@, "__installer"@, "support"@, "prerequisites"@, "_redist"@, "dotnet"@,
        "physx"@, "setup"@, "third_party"@, "thirdparty"@, "_support"@]
}

/// Name fragments that mark a game's own executable.
pub open spec fn game_exe_patterns() -> Seq<Seq<char>> {
    seq!["game"@, "play"@, "start"@, "launch"@, "run"@, "main"@]
}

/// Folder names where a game's executable usually is.
pub open spec fn preferred_dirs() -> Seq<Seq<char>> {
    seq!["bin"@, "binaries"@, "x64"@, "win64"@, "game"@, "bin64"@, "binary"@, "x86_64"@,
        "win32"@, "x86"@]
}

/// Name fragments of launchers.
pub open spec fn launcher_patterns() -> Seq<Seq<char>> {
    seq!["launcher"@, "loader"@, "bootstrap"@, "starter"@]
}

/// The characters a title keeps when cleaned.
pub open spec fn title_char(c: char) -> bool {
    alphanumeric(c) || is_ws(c)
}

/// A title lower-cased, stripped of everything but letters, digits and white
/// space, with its words joined by single spaces.
pub open spec fn cleaned_title(t: Seq<char>) -> Seq<char> {
    join(words(lowercase(t).filter(|c: char| title_char(c))), " "@)
}

/// The number of path separators (`/` or `\`) in `s`: how deep a file lies
/// below the game's folder.
pub open spec fn depth(s: Seq<char>) -> nat {
    s.filter(|c: char| c == '/' || c == '\\').len()
}

/// The words of a cleaned title that are at least three bytes long and occur
/// in the lower-cased file name.
pub open spec fn matching_words(file: Seq<char>, ws: Seq<Seq<char>>) -> Seq<Seq<char>> {
    ws.filter(|w: Seq<char>| byte_len(w) >= 3 && contains(file, w))
}

/// How a file name matches a cleaned title, in whole numbers: the similarity
/// is `matching / total`, raised by a fifth (to at most one) when
/// `starts_with_first`.
#[derive(Debug, Clone, Copy)]
pub struct TitleMatch {
    pub matching: usize,
    pub total: usize,
    pub starts_with_first: bool,
}

/// Whether executable `a` is offered before `b`: a higher score first, then
/// the shallower path.
pub open spec fn ranks_before(a: GameExecutable, b: GameExecutable) -> bool {
    a.score_bits > b.score_bits || (a.score_bits == b.score_bits && depth(a.path@) <= depth(b.path@))
}


/// The number of path separators in `s`.
pub fn path_depth(s: &str) -> (n: usize)
    ensures
        n == depth(s@),
{
    let v = chars_of(s);
    let ghost f = |c: char| c == '/' || c == '\\';
    let mut n: usize = 0;
    let mut i: usize = 0;
    assert(v@.take(0).filter(f) =~= Seq::<char>::empty());
    while i < v.len()
        invariant
            i <= v.len(),
            v@ == s@,
            f == (|c: char| c == '/' || c == '\\'),
            n == v@.take(i as int).filter(f).len(),
            n <= i,
        decreases v.len() - i,
    {
        let ghost pre = v@.take(i as int);
        proof {
            assert(v@.take(i + 1) =~= pre.push(v@[i as int]));
            pre.lemma_filter_push(v@[i as int], f);
        }
        if v[i] == '/' || v[i] == '\\' {
            n = n + 1;
        }
        i = i + 1;
    }
    assert(v@.take(v.len() as int) =~= v@);
    n
}

/// Unit type that owns the rules for recognising executables.
pub struct ExecutableDetector {}

impl ExecutableDetector {
    /// A game title prepared for comparison with file names.
    pub fn clean_title(title: &str) -> (r: String)
        ensures
            r@ == cleaned_title(title@),
    {
        let lower = to_lower(title);
        let lv = chars_of(lower.as_str());
        let ghost f = |c: char| title_char(c);
        let mut kept: Vec<char> = Vec::new();
        let mut i: usize = 0;
        assert(lv@.take(0).filter(f) =~= Seq::<char>::empty());
        while i < lv.len()
            invariant
                i <= lv.len(),
                lv@ == lowercase(title@),
                f == (|c: char| title_char(c)),
                kept@ == lv@.take(i as int).filter(f),
            decreases lv.len() - i,
        {
            let ghost pre = lv@.take(i as int);
            proof {
                assert(lv@.take(i + 1) =~= pre.push(lv@[i as int]));
                pre.lemma_filter_push(lv@[i as int], f);
            }
            let c = lv[i];
            if is_alphanumeric(c) || is_whitespace(c) {
                kept.push(c);
            }
            i = i + 1;
        }
        assert(lv@.take(lv.len() as int) =~= lv@);
        let filtered = string_from_chars(kept);
        let ws = str_words(filtered.as_str());
        str_join(ws.as_slice(), " ")
    }

    /// Whether a lower-cased file name or path marks a redistributable.
    pub fn is_redistributable(filename_lower: &str, path_lower: &str) -> (b: bool)
        ensures
            b == (contains_any(filename_lower@, redist_patterns()) || contains(path_lower@, "vcredist"@)
                || contains(path_lower@, "directx"@)),
    {
        let pats = vec!["vcredist", "vc_redist", "dxsetup", "dxwebsetup", "dotnet", "physx", "oalinst",
            "openal", "directx", "visual", "xnafx", "msvc", "redistributable", "prereq", "vc20", "d3d",
            "easyanticheat_setup"];
        assert(pats@.map_values(|p: &str| p@) =~= redist_patterns());
        any_occurs(filename_lower, pats.as_slice()) || str_contains(path_lower, "vcredist")
            || str_contains(path_lower, "directx")
    }

    /// Whether a lower-cased file name marks an installer.
    pub fn is_installer(filename_lower: &str) -> (b: bool)
        ensures
            b == contains_any(filename_lower@, installer_patterns()),
    {
        let pats = vec!["unins", "setup", "install", "uninstall", "update", "patch", "autorun",
            "launcher_setup", "installer", "uninst", "remove"];
        assert(pats@.map_values(|p: &str| p@) =~= installer_patterns());
        any_occurs(filename_lower, pats.as_slice())
    }

    /// Whether a lower-cased path lies in a redistributables folder.
    pub fn in_redist_directory(path_lower: &str) -> (b: bool)
        ensures
            b == contains_any(path_lower@, redist_dirs()),
    {
        let pats = vec!["_commonredist", "commonredist", "redist", "redistributables", "directx",
            "vcredist", "__installer", "support", "prerequisites", "_redist", "dotnet", "physx",
            "setup", "third_party", "thirdparty", "_support"];
        assert(pats@.map_values(|p: &str| p@) =~= redist_dirs());
        any_occurs(path_lower, pats.as_slice())
    }

    /// Whether a lower-cased file name marks a launcher.
    pub fn is_launcher(filename_lower: &str) -> (b: bool)
        ensures
            b == contains_any(filename_lower@, launcher_patterns()),
    {
        let pats = vec!["launcher", "loader", "bootstrap", "starter"];
        assert(pats@.map_values(|p: &str| p@) =~= launcher_patterns());
        any_occurs(filename_lower, pats.as_slice())
    }

    /// Whether a lower-cased path lies in a folder where games keep their executable.
    pub fn in_preferred_directory(path_lower: &str) -> (b: bool)
        ensures
            b == contains_any(path_lower@, preferred_dirs()),
    {
        let pats = vec!["bin", "binaries", "x64", "win64", "game", "bin64", "binary", "x86_64",
            "win32", "x86"];
        assert(pats@.map_values(|p: &str| p@) =~= preferred_dirs());
        any_occurs(path_lower, pats.as_slice())
    }

    /// Whether a lower-cased file name holds a word that marks a game's own executable.
    pub fn has_game_keyword(filename_lower: &str) -> (b: bool)
        ensures
            b == contains_any(filename_lower@, game_exe_patterns()),
    {
        let pats = vec!["game", "play", "start", "launch", "run", "main"];
        assert(pats@.map_values(|p: &str| p@) =~= game_exe_patterns());
        any_occurs(filename_lower, pats.as_slice())
    }

    /// How a lower-cased file name matches a cleaned title: how many of the
    /// title's words (of three bytes or more) it contains, out of how many,
    /// and whether it starts with the first word (of three bytes or more).
    pub fn title_match(filename_lower: &str, clean_title: &str) -> (r: TitleMatch)
        ensures
            r.total == words(clean_title@).len(),
            r.matching == matching_words(filename_lower@, words(clean_title@)).len(),
            r.starts_with_first == (words(clean_title@).len() > 0
                && byte_len(words(clean_title@)[0]) >= 3
                && has_prefix(filename_lower@, words(clean_title@)[0])),
    {
        let ws = str_words(clean_title);
        let ghost wv = views(ws@);
        let ghost f = |w: Seq<char>| byte_len(w) >= 3 && contains(filename_lower@, w);
        let mut m: usize = 0;
        let mut i: usize = 0;
        assert(wv.take(0).filter(f) =~= Seq::<Seq<char>>::empty());
        while i < ws.len()
            invariant
                i <= ws.len(),
                wv == views(ws@),
                wv == words(clean_title@),
                f == (|w: Seq<char>| byte_len(w) >= 3 && contains(filename_lower@, w)),
                m == wv.take(i as int).filter(f).len(),
                m <= i,
            decreases ws.len() - i,
        {
            let ghost pre = wv.take(i as int);
            proof {
                assert(wv.take(i + 1) =~= pre.push(wv[i as int]));
                pre.lemma_filter_push(wv[i as int], f);
            }
            let w = ws[i].as_str();
            if at_least_three_bytes(w) && str_contains(filename_lower, w) {
                m = m + 1;
            }
            i = i + 1;
        }
        assert(wv.take(ws.len() as int) =~= wv);
        let first = if ws.len() > 0 {
            let w = ws[0].as_str();
            at_least_three_bytes(w) && str_starts_with(filename_lower, w)
        } else {
            false
        };
        TitleMatch { matching: m, total: ws.len(), starts_with_first: first }
    }

    /// The launchable executable with the highest score (the last of equals).
    pub fn get_best_executable(executables: &[GameExecutable]) -> (r: Option<&GameExecutable>)
        ensures
            match r {
                Some(e) => exists|i: int| is_best_executable(executables@, i) && *e == executables@[i],
                None => !any_launchable(executables@),
            },
    {
        match best_executable_index(executables) {
            Some(i) => Some(&executables[i]),
            None => None,
        }
    }

    /// Order scored executables: the highest score first, then the shallowest
    /// path; equal ones keep their order.
    pub fn sort_executables(exes: Vec<GameExecutable>) -> (r: Vec<GameExecutable>)
        ensures
            chained(r@, |a: GameExecutable, b: GameExecutable| ranks_before(a, b)),
            r@.to_multiset() == exes@.to_multiset(),
    {
        let ghost le = |a: GameExecutable, b: GameExecutable| ranks_before(a, b);
        let mut out: Vec<GameExecutable> = Vec::new();
        let mut rest = exes;
        let ghost all = rest@;
        proof {
            crate::order::lemma_empty_plus(out@, rest@);
        }
        while rest.len() > 0
            invariant
                le == (|a: GameExecutable, b: GameExecutable| ranks_before(a, b)),
                chained(out@, le),
                out@.to_multiset().add(rest@.to_multiset()) == all.to_multiset(),
            decreases rest.len(),
        {
            let ghost before = rest@;
            let ghost old_out = out@;
            let x = rest.remove(0);
            proof {
                crate::order::lemma_take_first(before, old_out.to_multiset());
            }
            let xd = path_depth(x.path.as_str());
            let mut p = out.len();
            while p > 0 && (out[p - 1].score_bits < x.score_bits
                || (out[p - 1].score_bits == x.score_bits && path_depth(out[p - 1].path.as_str()) > xd))
                invariant
                    p <= out.len(),
                    out@ == old_out,
                    xd == depth(x.path@),
                    forall|q: int| p <= q < out@.len() ==> #[trigger] ranks_before(x, out@[q]),
                decreases p,
            {
                p = p - 1;
            }
            proof {
                crate::order::lemma_insert_keeps_chain(old_out, p as int, x, le);
                crate::order::lemma_insert_multiset(old_out, p as int, x);
            }
            out.insert(p, x);
        }
        proof {
            crate::order::lemma_empty_plus(rest@, out@);
        }
        out
    }
}

} // verus!
