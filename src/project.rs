//! Project identity: the marker files that make a directory a project root,
//! and the display name of a project path.

use vstd::prelude::*;

verus! {

/// The last component of a path, as std's `Path::file_name` finds it.
pub uninterp spec fn file_name_of(path: Seq<char>) -> Option<Seq<char>>;

/// The display name for a path's last component: the component, or "unknown".
pub open spec fn display_name(file_name: Option<Seq<char>>) -> Seq<char> {
    match file_name {
        Some(n) => n,
        None => "unknown"@,
    }
}

/// The first candidate directory that holds a marker, else `cwd`.
pub open spec fn root_of(candidates: Seq<(String, bool)>, cwd: Seq<char>) -> Seq<char>
    decreases candidates.len(),
{
    if candidates.len() == 0 {
        cwd
    } else if candidates[0].1 {
        candidates[0].0@
    } else {
        root_of(candidates.drop_first(), cwd)
    }
}

/// Relies on `Path::file_name`: the final component of `path`, if it has one.
/// The input is UTF-8, so the component converts back to a `String`.
#[verifier::external_body]
fn file_name(path: &str) -> (r: Option<String>)
    ensures
        match r {
            Some(n) => file_name_of(path@) == Some(n@),
            None => file_name_of(path@) is None,
        },
{
    match std::path::Path::new(path).file_name() {
        Some(n) => n.to_str().map(String::from),
        None => None,
    }
}

/// Project-root detection and naming.
pub struct Project;

impl Project {
    /// Names whose presence in a directory makes it a project root.
    pub const MARKERS: [&'static str; 8] = [
        "package.json",
        "deno.json",
        "deno.jsonc",
        "Cargo.toml",
        ".git",
        "pnpm-workspace.yaml",
        "lerna.json",
        "nx.json",
    ];

    /// The project root among the directories from the working directory up
    /// to the filesystem root, each paired with whether it holds a marker:
    /// the first that does, else the working directory.
    pub fn pick_root(candidates: &Vec<(String, bool)>, cwd: &str) -> (r: String)
        ensures
            r@ == root_of(candidates@, cwd@),
    {
        let n = candidates.len();
        let mut i: usize = 0;
        assert(candidates@.subrange(0, n as int) =~= candidates@);
        while i < n
            invariant
                n == candidates@.len(),
                i <= n,
                root_of(candidates@.subrange(i as int, n as int), cwd@) == root_of(
                    candidates@,
                    cwd@,
                ),
            decreases n - i,
        {
            let ghost rest = candidates@.subrange(i as int, n as int);
            assert(rest.drop_first() =~= candidates@.subrange(i + 1, n as int));
            if candidates[i].1 {
                return candidates[i].0.clone();
            }
            i = i + 1;
        }
        cwd.to_string()
    }

    /// The display name of a project path: its last component, or "unknown".
    pub fn get_name(path: &str) -> (r: String)
        ensures
            r@ == display_name(file_name_of(path@)),
    {
        Project::name_from(file_name(path))
    }

    /// The display name for an already extracted last component.
    pub fn name_from(file_name: Option<String>) -> (r: String)
        ensures
            r@ == display_name(
                match file_name {
                    Some(n) => Some(n@),
                    None => None,
                },
            ),
    {
        match file_name {
            Some(n) => n,
            None => "unknown".to_string(),
        }
    }
}

} // verus!
