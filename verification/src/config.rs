//! The settings of the tool and the place where they are kept.

use crate::path::{join, join_paths};
use vstd::prelude::*;

verus! {

/// The settings.
#[derive(Debug, Clone, PartialEq, Eq)]
pub struct Config {
    pub version: String,
    pub fzf: FzfConfig,
    pub auto_discovery: AutoDiscoveryConfig,
}

/// How the picker looks.
#[derive(Debug, Clone, PartialEq, Eq)]
pub struct FzfConfig {
    pub height: String,
    pub layout: String,
    pub preview_window: String,
}

/// Where repositories are looked for.
#[derive(Debug, Clone, PartialEq, Eq)]
pub struct AutoDiscoveryConfig {
    pub enabled: bool,
    pub paths: Vec<String>,
}

impl Default for FzfConfig {
    /// The picker takes 40% of the screen, lists from the top, and previews
    /// on the right in 60% of its width.
    fn default() -> (r: Self)
        ensures
            r.height@ == "40%"@,
            r.layout@ == "reverse"@,
            r.preview_window@ == "right:60%"@,
    {
        FzfConfig {
            height: "40%".to_owned(),
            layout: "reverse".to_owned(),
            preview_window: "right:60%".to_owned(),
        }
    }
}

impl Default for AutoDiscoveryConfig {
    /// Discovery is on, with no place to look in yet.
    fn default() -> (r: Self)
        ensures
            r.enabled,
            r.paths@.len() == 0,
    {
        AutoDiscoveryConfig { enabled: true, paths: Vec::new() }
    }
}

impl Default for Config {
    /// Version 1.0.0 with the default picker and the default discovery.
    fn default() -> (r: Self)
        ensures
            r.version@ == "1.0.0"@,
            r.fzf.height@ == "40%"@,
            r.fzf.layout@ == "reverse"@,
            r.fzf.preview_window@ == "right:60%"@,
            r.auto_discovery.enabled,
            r.auto_discovery.paths@.len() == 0,
    {
        Config {
            version: "1.0.0".to_owned(),
            fzf: FzfConfig::default(),
            auto_discovery: AutoDiscoveryConfig::default(),
        }
    }
}

/// The directory of the settings below the user's configuration directory
/// `base`.
pub open spec fn settings_dir(base: Seq<char>) -> Seq<char> {
    join(base, "worktree-manager"@)
}

/// The file of the settings below the user's configuration directory `base`.
pub open spec fn settings_file(base: Seq<char>) -> Seq<char> {
    join(settings_dir(base), "config.yaml"@)
}

/// The directory of the settings: `worktree-manager` in the user's
/// configuration directory `base`.
pub fn config_dir(base: &str) -> (r: String)
    ensures
        r@ == settings_dir(base@),
{
    join_paths(base, "worktree-manager")
}

/// The file of the settings: `config.yaml` in the directory of the settings.
pub fn config_path(base: &str) -> (r: String)
    ensures
        r@ == settings_file(base@),
        "config.yaml"@.is_suffix_of(r@),
{
    let dir = config_dir(base);
    proof {
        lemma_settings_file_name(base@);
    }
    join_paths(dir.as_str(), "config.yaml")
}

/// The file of the settings is named `config.yaml`, wherever the
/// configuration directory lies.
pub proof fn lemma_settings_file_name(base: Seq<char>)
    ensures
        "config.yaml"@.is_suffix_of(settings_file(base)),
{
    reveal_strlit("config.yaml");
    let name = "config.yaml"@;
    let dir = settings_dir(base);
    let file = settings_file(base);
    assert(name[0] == 'c');
    if dir.len() == 0 || dir.last() == '/' {
        assert(file == dir + name);
        assert(file.subrange(file.len() - name.len(), file.len() as int) == name);
    } else {
        assert(file == dir + seq!['/'] + name);
        assert(file.subrange(file.len() - name.len(), file.len() as int) == name);
    }
}

} // verus!
