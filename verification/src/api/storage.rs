//! Storage locations shown to the user: the storage configuration, the known
//! library folders, and the reports of the recovery commands.
use vstd::prelude::*;
use crate::text::{join, views, trim_end_by, chars_of, slice_to_vec, string_from_chars, concat3, to_decimal, dec_of};
use crate::unicode::{lowercase, to_lower};

verus! {

/// The storage configuration with its paths resolved, for display.
#[derive(Debug, Clone)]
pub struct AppStorageConfig {
    pub data_root: Option<String>,
    pub effective_download_path: String,
    pub effective_library_path: String,
    pub default_download_path: String,
    pub default_library_path: String,
}

/// A library folder the user can pick from.
#[derive(Debug, Clone)]
pub struct KnownLibraryLocation {
    pub path: String,
    pub label: String,
    pub is_current: bool,
    pub removable: bool,
}

/// The outcome of a recovery command.
#[derive(Debug, Clone)]
pub struct RecoveryResult {
    pub success: bool,
    pub message: String,
    pub details: Vec<String>,
}

/// A path separator of either platform.
pub open spec fn is_path_sep(c: char) -> bool {
    c == '/' || c == '\\'
}

/// A path as compared with others: trailing separators removed, and
/// lower-cased where the file system ignores case.
pub open spec fn normalized_path(p: Seq<char>, fold_case: bool) -> Seq<char> {
    let t = trim_end_by(p, |c: char| is_path_sep(c));
    if fold_case { lowercase(t) } else { t }
}

proof fn lemma_trim_step(s: Seq<char>, n: int)
    requires
        0 < n <= s.len(),
        is_path_sep(s[n - 1]),
    ensures
        trim_end_by(s.take(n), |c: char| is_path_sep(c)) == trim_end_by(s.take(n - 1), |c: char| is_path_sep(c)),
{
    assert(s.take(n).drop_last() =~= s.take(n - 1));
}

/// `p` normalised for comparison.
pub fn normalize_path(p: &str, fold_case: bool) -> (r: String)
    ensures
        r@ == normalized_path(p@, fold_case),
{
    let s = chars_of(p);
    let mut n = s.len();
    assert(s@.take(n as int) =~= s@);
    while n > 0 && (s[n - 1] == '/' || s[n - 1] == '\\')
        invariant
            n <= s.len(),
            trim_end_by(s@, |c: char| is_path_sep(c)) == trim_end_by(s@.take(n as int), |c: char| is_path_sep(c)),
        decreases n,
    {
        proof { lemma_trim_step(s@, n as int); }
        n = n - 1;
    }
    let t = string_from_chars(slice_to_vec(s.as_slice(), 0, n));
    assert(t@ =~= s@.take(n as int));
    if fold_case { to_lower(t.as_str()) } else { t }
}

/// The label of a library folder from its path's components: the last two,
/// joined by ` › `, or the path itself when it has fewer.
pub open spec fn label_of(parts: Seq<Seq<char>>, path: Seq<char>) -> Seq<char> {
    if parts.len() >= 2 {
        parts[parts.len() - 2] + " › "@ + parts[parts.len() - 1]
    } else {
        path
    }
}

/// A plain path component: not empty, without a separator or a drive colon,
/// and neither `.` nor `..`.
pub open spec fn plain_part(c: Seq<char>) -> bool {
    &&& c.len() > 0
    &&& !c.contains('/')
    &&& !c.contains('\\')
    &&& !c.contains(':')
    &&& c != "."@
    &&& c != ".."@
}

/// One or more plain components.
pub open spec fn plain_parts(parts: Seq<Seq<char>>) -> bool {
    &&& parts.len() > 0
    &&& forall|i: int| 0 <= i < parts.len() ==> plain_part(#[trigger] parts[i])
}

/// Whether `label` is the label of `path` wherever `path` is plain
/// components joined by `/`: the last two of them joined by ` › ` (the path
/// itself for one component).
pub open spec fn labels_path(label: Seq<char>, path: Seq<char>) -> bool {
    forall|parts: Seq<Seq<char>>| plain_parts(parts) && #[trigger] join(parts, "/"@) == path
        ==> label == label_of(parts, path)
}

/// Wraps `Path::components` (each component as text). How a path splits
/// depends on the platform; the documentation's normalisation (repeated
/// separators and inner `.` dropped) and the Windows prefixes leave a path of
/// plain components joined by `/` split into exactly those components, on
/// every platform. Nothing is stated of other paths.
#[verifier::external_body]
fn path_components(path: &str) -> (r: Vec<String>)
    ensures
        forall|parts: Seq<Seq<char>>| plain_parts(parts) && #[trigger] join(parts, "/"@) == path@
            ==> views(r@) == parts,
{
    std::path::Path::new(path).components().map(|c| c.as_os_str().to_string_lossy().into_owned()).collect()
}

/// The label of a library folder, given the components of its path.
pub fn label_from_components(parts: &Vec<String>, path: &str) -> (r: String)
    ensures
        r@ == label_of(parts@.map_values(|s: String| s@), path@),
{
    let n = parts.len();
    if n >= 2 {
        proof { reveal_strlit(" › "); }
        concat3(parts[n - 2].as_str(), " › ", parts[n - 1].as_str())
    } else {
        String::from_str(path)
    }
}

/// A short label for a library folder: its path's last two components
/// joined by ` › ` (the path itself when it has fewer).
pub fn drive_label(path: &str) -> (r: String)
    ensures
        labels_path(r@, path@),
{
    let parts = path_components(path);
    let r = label_from_components(&parts, path);
    proof {
        assert(parts@.map_values(|s: String| s@) =~= views(parts@));
    }
    r
}

/// The extra library folders that are listed: those that are neither the
/// current nor the default folder.
pub open spec fn listed_extras(extras: Seq<Seq<char>>, cur: Seq<char>, def: Seq<char>, fold_case: bool) -> Seq<Seq<char>>
    decreases extras.len(),
{
    if extras.len() == 0 {
        Seq::empty()
    } else {
        let rest = listed_extras(extras.drop_last(), cur, def, fold_case);
        let n = normalized_path(extras.last(), fold_case);
        if n != normalized_path(cur, fold_case) && n != normalized_path(def, fold_case) {
            rest.push(extras.last())
        } else {
            rest
        }
    }
}

/// The known library folders by path, current-flag and removable-flag: the
/// current folder, the default one when it differs, then the extra folders.
pub open spec fn known_locations(current: Seq<char>, default_lib: Seq<char>, extras: Seq<Seq<char>>, fold_case: bool) -> Seq<(Seq<char>, bool, bool)> {
    let first = seq![(current, true, false)];
    let second = if normalized_path(default_lib, fold_case) != normalized_path(current, fold_case) {
        seq![(default_lib, false, false)]
    } else {
        Seq::empty()
    };
    first + second + listed_extras(extras, current, default_lib, fold_case).map_values(|e: Seq<char>| (e, false, true))
}

/// A location by path and flags.
pub open spec fn location_view(l: KnownLibraryLocation) -> (Seq<char>, bool, bool) {
    (l.path@, l.is_current, l.removable)
}

/// The library folders to offer: the current one (labelled by whether a
/// custom data root is set), the default one when it differs from it, and
/// each extra folder the user added that is neither. Paths are compared
/// without trailing separators, and without case where `fold_case` says so.
pub fn known_library_locations(
    current: &str,
    default_lib: &str,
    has_custom_root: bool,
    extras: &Vec<String>,
    fold_case: bool,
) -> (r: Vec<KnownLibraryLocation>)
    ensures
        r@.map_values(|l: KnownLibraryLocation| location_view(l))
            == known_locations(current@, default_lib@, extras@.map_values(|s: String| s@), fold_case),
        r@[0].label@ == (if has_custom_root { "Current (custom)"@ } else { "Default (AppData)"@ }),
        normalized_path(default_lib@, fold_case) != normalized_path(current@, fold_case) ==> r@[1].label@ == "Default (AppData)"@,
        forall|i: int| 0 <= i < r.len() && (#[trigger] r@[i]).removable
            ==> labels_path(r@[i].label@, r@[i].path@),
{
    let ghost ev = extras@.map_values(|s: String| s@);
    let cur_norm = normalize_path(current, fold_case);
    let def_norm = normalize_path(default_lib, fold_case);
    let mut locations: Vec<KnownLibraryLocation> = Vec::new();
    let label = if has_custom_root {
        String::from_str("Current (custom)")
    } else {
        String::from_str("Default (AppData)")
    };
    locations.push(KnownLibraryLocation {
        path: String::from_str(current),
        label,
        is_current: true,
        removable: false,
    });
    let differs = !crate::text::str_eq(def_norm.as_str(), cur_norm.as_str());
    if differs {
        locations.push(KnownLibraryLocation {
            path: String::from_str(default_lib),
            label: String::from_str("Default (AppData)"),
            is_current: false,
            removable: false,
        });
    }
    let ghost fixed = locations@.map_values(|l: KnownLibraryLocation| location_view(l));
    let ghost fixed_len = locations.len();
    let mut i: usize = 0;
    assert(ev.take(0) =~= Seq::<Seq<char>>::empty());
    while i < extras.len()
        invariant
            i <= extras.len(),
            ev == extras@.map_values(|s: String| s@),
            cur_norm@ == normalized_path(current@, fold_case),
            def_norm@ == normalized_path(default_lib@, fold_case),
            fixed_len == (if differs { 2usize } else { 1usize }),
            locations.len() >= fixed_len,
            locations@.map_values(|l: KnownLibraryLocation| location_view(l))
                == fixed + listed_extras(ev.take(i as int), current@, default_lib@, fold_case).map_values(|e: Seq<char>| (e, false, true)),
            locations@.take(fixed_len as int).map_values(|l: KnownLibraryLocation| location_view(l)) == fixed,
            fixed.len() == fixed_len,
            locations@[0].label@ == (if has_custom_root { "Current (custom)"@ } else { "Default (AppData)"@ }),
            differs ==> locations@[1].label@ == "Default (AppData)"@,
            forall|j: int| 0 <= j < locations.len() && (#[trigger] locations@[j]).removable
                ==> labels_path(locations@[j].label@, locations@[j].path@),
        decreases extras.len() - i,
    {
        let e = &extras[i];
        let n = normalize_path(e.as_str(), fold_case);
        proof {
            assert(ev.take(i + 1).drop_last() =~= ev.take(i as int));
            assert(ev.take(i + 1).last() == e@);
        }
        let keep = !crate::text::str_eq(n.as_str(), cur_norm.as_str()) && !crate::text::str_eq(n.as_str(), def_norm.as_str());
        let ghost before = locations@;
        if keep {
            let label = drive_label(e.as_str());
            let ghost lv = label@;
            let path = e.clone();
            assert(path@ == e@);
            locations.push(KnownLibraryLocation {
                path,
                label,
                is_current: false,
                removable: true,
            });
            proof {
                assert(locations@.map_values(|l: KnownLibraryLocation| location_view(l))
                    =~= before.map_values(|l: KnownLibraryLocation| location_view(l)).push((e@, false, true)));
                assert(locations@.take(fixed_len as int) =~= before.take(fixed_len as int));
                assert forall|j: int| 0 <= j < locations.len() && (#[trigger] locations@[j]).removable
                    implies labels_path(locations@[j].label@, locations@[j].path@) by {
                    if j < before.len() {
                        assert(locations@[j] == before[j]);
                    }
                }
            }
        }
        proof {
            let l = listed_extras(ev.take(i as int), current@, default_lib@, fold_case);
            let l2 = listed_extras(ev.take(i + 1), current@, default_lib@, fold_case);
            if keep {
                assert(l2 == l.push(e@));
                assert(l2.map_values(|x: Seq<char>| (x, false, true)) =~= l.map_values(|x: Seq<char>| (x, false, true)).push((e@, false, true)));
            } else {
                assert(l2 == l);
            }
        }
        i = i + 1;
    }
    proof {
        assert(ev.take(i as int) =~= ev);
        let want = known_locations(current@, default_lib@, ev, fold_case);
        if differs {
            assert(fixed =~= seq![(current@, true, false), (default_lib@, false, false)]);
        } else {
            assert(fixed =~= seq![(current@, true, false)]);
        }
        assert(locations@.map_values(|l: KnownLibraryLocation| location_view(l)) =~= want);
    }
    locations
}

/// Whether a library folder found on disk is new to the list: it is neither
/// the current nor the default folder, nor one of the user's extra folders.
pub fn detected_is_new(lib: &str, current: &str, default_lib: &str, extras: &Vec<String>, fold_case: bool) -> (b: bool)
    ensures
        b == ({
            let n = normalized_path(lib@, fold_case);
            &&& n != normalized_path(current@, fold_case)
            &&& n != normalized_path(default_lib@, fold_case)
            &&& forall|j: int| 0 <= j < extras.len() ==> normalized_path((#[trigger] extras@[j])@, fold_case) != n
        }),
{
    let n = normalize_path(lib, fold_case);
    let c = normalize_path(current, fold_case);
    let d = normalize_path(default_lib, fold_case);
    if crate::text::str_eq(n.as_str(), c.as_str()) || crate::text::str_eq(n.as_str(), d.as_str()) {
        return false;
    }
    let mut i: usize = 0;
    while i < extras.len()
        invariant
            i <= extras.len(),
            n@ == normalized_path(lib@, fold_case),
            forall|j: int| 0 <= j < i ==> normalized_path((#[trigger] extras@[j])@, fold_case) != n@,
        decreases extras.len() - i,
    {
        let e = normalize_path(extras[i].as_str(), fold_case);
        if crate::text::str_eq(e.as_str(), n.as_str()) {
            return false;
        }
        i = i + 1;
    }
    true
}

/// The report of fixing stored paths, from the number of download and library
/// paths that were fixed.
pub fn fix_paths_report(dl_fixed: usize, lib_fixed: usize) -> (r: RecoveryResult)
    requires
        dl_fixed + lib_fixed <= usize::MAX,
    ensures
        r.success,
        r.details@.len() == 2,
        r.details@[0]@ == (if dl_fixed > 0 { "Fixed "@ + dec_of(dl_fixed as nat) + " download path(s)."@ } else { "Download paths are already correct."@ }),
        r.details@[1]@ == (if lib_fixed > 0 { "Fixed "@ + dec_of(lib_fixed as nat) + " library path(s)."@ } else { "Library paths are already correct."@ }),
        r.message@ == (if dl_fixed + lib_fixed > 0 {
            "Fixed "@ + dec_of((dl_fixed + lib_fixed) as nat) + " total path reference(s)."@
        } else {
            "All paths are already correct — nothing to fix."@
        }),
{
    let mut details: Vec<String> = Vec::new();
    if dl_fixed > 0 {
        let n = to_decimal(dl_fixed as u128);
        details.push(concat3("Fixed ", n.as_str(), " download path(s)."));
    } else {
        details.push(String::from_str("Download paths are already correct."));
    }
    if lib_fixed > 0 {
        let n = to_decimal(lib_fixed as u128);
        details.push(concat3("Fixed ", n.as_str(), " library path(s)."));
    } else {
        details.push(String::from_str("Library paths are already correct."));
    }
    let total = dl_fixed + lib_fixed;
    let message = if total > 0 {
        let n = to_decimal(total as u128);
        concat3("Fixed ", n.as_str(), " total path reference(s).")
    } else {
        String::from_str("All paths are already correct — nothing to fix.")
    };
    RecoveryResult { success: true, message, details }
}

} // verus!
