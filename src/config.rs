//! The profile/workspace configuration: its data, the defaults that loading
//! applies, and the one-time expansion of home-relative workspace paths.

use vstd::prelude::*;
use crate::text::{chars_of, chars_between, starts_with, string_of, trim, trimmed};

verus! {

/// An identity that workspaces can refer to by name.
#[derive(Debug)]
pub struct ProfileConfig {
    pub name: String,
    pub email: String,
    pub ssh_host: Option<String>,
    pub ssh_key: Option<String>,
    pub platform: Option<String>,
}

/// One declared workspace; `profile` names an entry of the profile mapping
/// and is not checked against it.
#[derive(Debug)]
pub struct WorkspaceConfig {
    pub name: String,
    pub path: String,
    pub workspace_type: String,
    pub profile: String,
    pub aidf: bool,
}

/// The whole configuration: profiles by name, and workspaces in declaration
/// order.
#[derive(Debug)]
pub struct DitLoopConfigFile {
    pub profiles: Vec<(String, ProfileConfig)>,
    pub workspaces: Vec<WorkspaceConfig>,
}

/// A loaded configuration, where it was looked for, and whether it was there.
#[derive(Debug)]
pub struct ConfigLoadResult {
    pub config: DitLoopConfigFile,
    pub config_path: String,
    pub exists: bool,
}

impl DitLoopConfigFile {
    /// Profile names are keys: no two entries share one.
    pub open spec fn wf(&self) -> bool {
        forall|i: int, j: int|
            0 <= i < j < self.profiles@.len() ==> #[trigger] self.profiles@[i].0@
                != #[trigger] self.profiles@[j].0@
    }
}

impl Default for DitLoopConfigFile {
    /// No profiles and no workspaces.
    fn default() -> (r: DitLoopConfigFile)
        ensures
            r.profiles@.len() == 0,
            r.workspaces@.len() == 0,
            r.wf(),
    {
        DitLoopConfigFile { profiles: Vec::new(), workspaces: Vec::new() }
    }
}

/// The type a workspace has when its declaration names none.
pub fn default_workspace_type() -> (r: String)
    ensures
        r@ == "single"@,
{
    String::from_str("single")
}

/// A path with a leading `~` has that one character replaced by `home`;
/// any other path is kept.
pub open spec fn tilde_expanded(path: Seq<char>, home: Seq<char>) -> Seq<char> {
    if path.len() > 0 && path[0] == '~' {
        home + path.skip(1)
    } else {
        path
    }
}

/// Expands a leading `~` of `path` to `home`.
pub fn expand_tilde(path: &str, home: &str) -> (r: String)
    ensures
        r@ == tilde_expanded(path@, home@),
{
    let p = chars_of(path);
    if p.len() > 0 && p[0] == '~' {
        let rest = chars_between(&p, 1, p.len());
        let mut r = String::from_str(home);
        r.append(string_of(rest.as_slice()).as_str());
        assert(p@.subrange(1, p@.len() as int) =~= p@.skip(1));
        r
    } else {
        String::from_str(path)
    }
}

/// Rewrites every workspace path that begins with `~` to start at `home`;
/// nothing else changes.
pub fn expand_workspace_paths(config: &mut DitLoopConfigFile, home: &str)
    ensures
        final(config).profiles == old(config).profiles,
        final(config).workspaces@.len() == old(config).workspaces@.len(),
        forall|i: int|
            0 <= i < old(config).workspaces@.len() ==> {
                let w = #[trigger] final(config).workspaces@[i];
                let v = old(config).workspaces@[i];
                &&& w.path@ == tilde_expanded(v.path@, home@)
                &&& w.name == v.name
                &&& w.workspace_type == v.workspace_type
                &&& w.profile == v.profile
                &&& w.aidf == v.aidf
            },
{
    let n = config.workspaces.len();
    let ghost orig = config.workspaces@;
    for i in 0..n
        invariant
            n == orig.len() == config.workspaces@.len(),
            config.profiles == old(config).profiles,
            orig == old(config).workspaces@,
            forall|j: int|
                0 <= j < n ==> {
                    let w = #[trigger] config.workspaces@[j];
                    let v = orig[j];
                    &&& j < i ==> w.path@ == tilde_expanded(v.path@, home@)
                    &&& j >= i ==> w.path == v.path
                    &&& w.name == v.name
                    &&& w.workspace_type == v.workspace_type
                    &&& w.profile == v.profile
                    &&& w.aidf == v.aidf
                },
    {
        let expanded = expand_tilde(config.workspaces[i].path.as_str(), home);
        config.workspaces[i].path = expanded;
    }
}

/// The index of the profile named `name`, if there is one.
pub open spec fn profile_index(config: DitLoopConfigFile, name: Seq<char>, i: int) -> bool {
    0 <= i < config.profiles@.len() && config.profiles@[i].0@ == name
}

/// Looks up a profile by name (the first entry with it; in a well-formed
/// configuration the only one).
pub fn find_profile<'a>(config: &'a DitLoopConfigFile, name: &str) -> (r: Option<&'a ProfileConfig>)
    ensures
        r is None <==> (forall|i: int| !profile_index(*config, name@, i)),
        r is Some ==> exists|i: int|
            profile_index(*config, name@, i) && (forall|j: int|
                0 <= j < i ==> !profile_index(*config, name@, j)) && r->0
                == &config.profiles@[i].1,
{
    let n = config.profiles.len();
    let target = String::from_str(name);
    for i in 0..n
        invariant
            n == config.profiles@.len(),
            target@ == name@,
            forall|j: int| 0 <= j < i ==> !profile_index(*config, name@, j),
    {
        if config.profiles[i].0 == target {
            assert(profile_index(*config, name@, i as int));
            return Some(&config.profiles[i].1);
        }
    }
    None
}


/// The message for a profile name that the configuration does not hold.
pub fn profile_not_found_message(name: &str) -> (r: String)
    ensures
        r@ == "Profile '"@ + name@ + "' not found in config"@,
{
    let mut r = String::from_str("Profile '");
    r.append(name);
    r.append("' not found in config");
    r
}

/// The configured identity from the output of the query for it: the output
/// trimmed, when the query succeeded and that is not empty.
pub fn identity_from_output(success: bool, stdout: &str) -> (r: Option<String>)
    ensures
        r is Some <==> success && trim(stdout@).len() > 0,
        r is Some ==> r->0@ == trim(stdout@),
{
    if !success {
        return None;
    }
    let t = trimmed(&chars_of(stdout));
    if t.len() == 0 {
        None
    } else {
        Some(string_of(t.as_slice()))
    }
}

/// Expanding `~` or a path under `~/` gives a path rooted at `home` that no
/// longer begins with `~` (for a `home` that does not begin with `~`
/// itself); an absolute path is kept as it is.
pub proof fn lemma_tilde_expansion(path: Seq<char>, home: Seq<char>)
    requires
        home.len() == 0 || home[0] != '~',
    ensures
        (path == seq!['~'] || starts_with(path, seq!['~', '/'])) ==> {
            let r = tilde_expanded(path, home);
            &&& starts_with(r, home)
            &&& r == home + path.skip(1)
            &&& r.len() == 0 || r[0] != '~'
        },
        (path.len() > 0 && path[0] == '/') ==> tilde_expanded(path, home) == path,
{
    if path == seq!['~'] || starts_with(path, seq!['~', '/']) {
        if path != seq!['~'] {
            assert(path.take(2)[0] == path[0]);
            assert(path.take(2)[1] == path[1]);
        }
        let r = tilde_expanded(path, home);
        assert(r.take(home.len() as int) =~= home);
        if home.len() == 0 && r.len() > 0 {
            assert(r[0] == path[1]);
        }
    }
}

} // verus!
