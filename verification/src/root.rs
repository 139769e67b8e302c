//! Which directory a sidebar tab is rooted in, and the key it is
//! remembered under.
use vstd::prelude::*;

use crate::text::{chars_of, push_char};

verus! {

/// A character of the remembered key: backslashes become slashes, and on
/// Windows ASCII letters fold to lower case.
pub open spec fn key_char(c: char, windows: bool) -> char {
    if c == '\\' {
        '/'
    } else if windows && 'A' <= c && c <= 'Z' {
        ((c as u32) + 32) as char
    } else {
        c
    }
}

pub open spec fn key_path(cwd: Seq<char>, windows: bool) -> Seq<char> {
    Seq::new(cwd.len(), |i: int| key_char(cwd[i], windows))
}

/// Roots are project state, not tab state: the key is the workspace
/// label, `::`, and the spawn directory with forward slashes
/// (case-folded on Windows).
pub open spec fn spec_remembered_root_key(workspace_label: Seq<char>, spawn_cwd: Seq<char>, windows: bool) -> Seq<char> {
    workspace_label + seq![':', ':'] + key_path(spawn_cwd, windows)
}

fn fold_char(c: char, windows: bool) -> (d: char)
    ensures
        d == key_char(c, windows),
{
    if c == '\\' {
        '/'
    } else if windows && 'A' <= c && c <= 'Z' {
        let u = (c as u32) + 32;
        assert(0x61 <= u <= 0x7a);
        (u as u8) as char
    } else {
        c
    }
}

/// The key a tab's root is remembered under. `windows` is whether paths
/// are Windows paths (case-insensitive).
pub fn remembered_root_key(workspace_label: &str, spawn_cwd: &str, windows: bool) -> (key: String)
    ensures
        key@ == spec_remembered_root_key(workspace_label@, spawn_cwd@, windows),
{
    let mut key = String::from_str(workspace_label);
    push_char(&mut key, ':');
    push_char(&mut key, ':');
    let cwd = chars_of(spawn_cwd);
    let ghost prefix = key@;
    for i in 0..cwd.len()
        invariant
            cwd@ == spawn_cwd@,
            prefix == workspace_label@ + seq![':', ':'],
            key@ == prefix + key_path(cwd@.take(i as int), windows),
    {
        push_char(&mut key, fold_char(cwd[i], windows));
        assert(key_path(cwd@.take(i + 1), windows) =~= key_path(cwd@.take(i as int), windows).push(key_char(cwd[i as int], windows)));
    }
    assert(cwd@.take(cwd@.len() as int) == cwd@);
    key
}

/// The key starts with the workspace label and `::`, and holds no
/// backslash: one key per project, whatever the path separator.
pub proof fn lemma_root_key_is_project_stable(workspace_label: Seq<char>, spawn_cwd: Seq<char>, windows: bool)
    requires
        !workspace_label.contains('\\'),
    ensures
        spec_remembered_root_key(workspace_label, spawn_cwd, windows).take(workspace_label.len() + 2int) == workspace_label + seq![':', ':'],
        !spec_remembered_root_key(workspace_label, spawn_cwd, windows).contains('\\'),
{
    let key = spec_remembered_root_key(workspace_label, spawn_cwd, windows);
    assert(key.take(workspace_label.len() + 2int) =~= workspace_label + seq![':', ':']);
    if key.contains('\\') {
        let i = choose|i: int| 0 <= i < key.len() && key[i] == '\\';
        if i < workspace_label.len() {
            assert(workspace_label[i] == '\\');
        } else if i >= workspace_label.len() + 2 {
            let j = i - workspace_label.len() - 2;
            let c = spawn_cwd[j];
            assert(key[i] == key_char(c, windows));
            if windows && 'A' <= c && c <= 'Z' {
                assert((c as u32) + 32 != 0x5c);
            }
        }
    }
}

/// Which directory a tab's tree is built from.
#[derive(Clone, Copy, Debug, PartialEq, Eq, Structural)]
pub enum RootChoice {
    /// The root this tab remembers.
    Remembered,
    /// The root an older version remembered for the whole workspace.
    Legacy,
    /// The directory the pane was spawned in.
    SpawnCwd,
}

pub open spec fn spec_resolve_root(remembered: Option<bool>, legacy: Option<(bool, bool)>) -> RootChoice {
    if remembered == Some(true) {
        RootChoice::Remembered
    } else if legacy == Some((true, true)) {
        RootChoice::Legacy
    } else {
        RootChoice::SpawnCwd
    }
}

/// The choice is stable: a remembered or legacy root is chosen only when
/// it is a directory; the resolution then remembers what it chose, and as
/// long as that root is still a directory the next resolution picks the
/// remembered root again, whatever the legacy entry holds, so the same
/// root comes back.
pub proof fn lemma_resolve_root_is_stable(
    remembered: Option<bool>,
    legacy: Option<(bool, bool)>,
    later_legacy: Option<(bool, bool)>,
)
    ensures
        spec_resolve_root(Some(true), later_legacy) == RootChoice::Remembered,
        spec_resolve_root(remembered, legacy) == RootChoice::Remembered ==> remembered == Some(true),
        spec_resolve_root(remembered, legacy) == RootChoice::Legacy ==> legacy == Some((true, true)),
{
}

/// The remembered root when it still exists as a directory; else the
/// legacy workspace-wide root, but only when it exists and contains the
/// spawn directory (sibling project tabs must not all inherit it); else
/// the spawn directory.
/// `remembered` is `Some(is_dir)` when a root is remembered; `legacy` is
/// `Some((is_dir, contains_spawn_cwd))` when a legacy root is.
pub fn resolve_root(remembered: Option<bool>, legacy: Option<(bool, bool)>) -> (choice: RootChoice)
    ensures
        choice == spec_resolve_root(remembered, legacy),
{
    match remembered {
        Some(true) => RootChoice::Remembered,
        _ => match legacy {
            Some((true, true)) => RootChoice::Legacy,
            _ => RootChoice::SpawnCwd,
        },
    }
}

} // verus!
