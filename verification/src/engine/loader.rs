//! Where source configurations live, and which files there are loaded.
use vstd::prelude::*;
use crate::text::{has_prefix, str_starts_with, str_eq};

verus! {

/// The application's name: the directory under the user's configuration
/// directory that holds its data.
pub const APP_NAME: &'static str = "ScrapStation";

/// The name of the directory that holds the source configurations.
pub const SOURCES_DIR_NAME: &'static str = "sources";

/// Whether `part` is one plain path component: not empty and free of either
/// separator, so that joining it never replaces the base.
pub open spec fn plain_component(part: Seq<char>) -> bool {
    &&& part.len() > 0
    &&& !part.contains('/')
    &&& !part.contains('\\')
    &&& !part.contains(':')
}

/// Whether `r` is `base` followed by `part`, with at most one separator
/// between them.
pub open spec fn joined_onto(r: Seq<char>, base: Seq<char>, part: Seq<char>) -> bool {
    ||| r == base + part
    ||| r == base + seq!['/'] + part
    ||| r == base + seq!['\\'] + part
}

/// Whether a path starts with Windows' verbatim prefix `\\?\`.
pub open spec fn verbatim(p: Seq<char>) -> bool {
    has_prefix(p, seq!['\\', '\\', '?', '\\'])
}

/// Wraps `Path::join`: adjoins a plain component to `base`. Whether a
/// separator is put between them, and which one, depends on the platform
/// and on how `base` ends; the contract states only the three shapes. On
/// Windows a base with a verbatim prefix is normalized (`.` and `..` taken
/// out), so nothing is stated of such a base.
#[verifier::external_body]
fn join_component(base: &str, part: &str) -> (r: String)
    requires
        plain_component(part@),
    ensures
        !verbatim(base@) ==> joined_onto(r@, base@, part@),
{
    std::path::Path::new(base).join(part).to_string_lossy().into_owned()
}

/// Loads source configurations from the sources directory.
pub struct SourceLoader;

impl SourceLoader {
    /// The sources directory, given what the environment holds: the crate's
    /// manifest directory when set (development), else `APP_NAME/sources`
    /// under the user's configuration directory, else `sources` under the
    /// working directory (an empty path when that cannot be read). Nothing is
    /// stated of a directory with Windows' verbatim prefix.
    pub fn sources_dir(
        manifest_dir: Option<String>,
        config_dir: Option<String>,
        current_dir: Option<String>,
    ) -> (r: String)
        ensures
            match (manifest_dir, config_dir) {
                (Some(m), _) => !verbatim(m@) ==> joined_onto(r@, m@, SOURCES_DIR_NAME@),
                (None, Some(c)) => !verbatim(c@) ==> exists|app_dir: Seq<char>|
                    joined_onto(app_dir, c@, APP_NAME@) && (!verbatim(app_dir) ==> joined_onto(r@, app_dir, SOURCES_DIR_NAME@)),
                (None, None) => !verbatim(match current_dir { Some(d) => d@, None => Seq::<char>::empty() }) ==> joined_onto(
                    r@,
                    match current_dir { Some(d) => d@, None => Seq::<char>::empty() },
                    SOURCES_DIR_NAME@,
                ),
            },
    {
        proof {
            reveal_strlit("sources");
            reveal_strlit("ScrapStation");
        }
        match manifest_dir {
            Some(m) => join_component(m.as_str(), SOURCES_DIR_NAME),
            None => match config_dir {
                Some(c) => {
                    let app_dir = join_component(c.as_str(), APP_NAME);
                    join_component(app_dir.as_str(), SOURCES_DIR_NAME)
                },
                None => {
                    let base = match current_dir {
                        Some(d) => d,
                        None => String::new(),
                    };
                    join_component(base.as_str(), SOURCES_DIR_NAME)
                },
            },
        }
    }

    /// Whether a file of the sources directory is loaded: a `.yaml` file whose
    /// stem is not `schema` and starts neither with `example` nor with `_`
    /// (a stem that cannot be read counts as empty).
    pub fn is_loadable(extension: Option<&str>, stem: Option<&str>) -> (b: bool)
        ensures
            b == (extension.is_some() && extension.unwrap()@ == "yaml"@ && {
                let s = match stem { Some(s) => s@, None => Seq::<char>::empty() };
                &&& s != "schema"@
                &&& !has_prefix(s, "example"@)
                &&& !has_prefix(s, "_"@)
            }),
    {
        let is_yaml = match extension {
            Some(e) => str_eq(e, "yaml"),
            None => false,
        };
        if !is_yaml {
            return false;
        }
        let s: &str = match stem {
            Some(s) => s,
            None => "",
        };
        proof { reveal_strlit(""); }
        assert(s@ == match stem { Some(t) => t@, None => Seq::<char>::empty() });
        !str_eq(s, "schema") && !str_starts_with(s, "example") && !str_starts_with(s, "_")
    }
}

} // verus!
