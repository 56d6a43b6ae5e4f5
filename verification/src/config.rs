//! Pool configuration: how many trees a pool may hold and where pools live.
use vstd::prelude::*;

use crate::paths::{absolute, is_absolute, join_path, path_join};
use crate::text::{chars_of, concat, string_of};

verus! {

/// The number of trees a pool holds when nothing else is configured.
pub const DEFAULT_MAX_TREES: usize = 16;

/// Settings read from `tree-pool.toml`.
pub struct Config {
    /// The largest number of trees in a pool.
    pub max_trees: usize,
    /// Base directory for pools: empty for the home directory, else a path,
    /// relative ones taken from the repository root; `$VAR` is expanded.
    pub root: String,
}

/// The default for `max_trees`.
pub fn default_max_trees() -> (n: usize)
    ensures
        n == DEFAULT_MAX_TREES,
{
    DEFAULT_MAX_TREES
}

impl Default for Config {
    fn default() -> (c: Self)
        ensures
            c.max_trees == DEFAULT_MAX_TREES,
            c.root@ == Seq::<char>::empty(),
    {
        Config { max_trees: default_max_trees(), root: String::new() }
    }
}

/// Why the pool root could not be resolved.
pub enum ConfigError {
    /// No home directory is known.
    NoHome,
    /// A variable in `root` could not be expanded: its name, and why it
    /// could not be read.
    Expand { root: String, var: String, cause: String },
}

impl ConfigError {
    /// The message that reports this failure.
    pub fn message(&self) -> (m: String)
        ensures
            m@ == match self {
                ConfigError::NoHome => "could not determine home directory"@,
                ConfigError::Expand { root, var, cause } => "failed to expand env vars in root: "@
                    + root@ + ": error looking key '"@ + var@ + "' up: "@ + cause@,
            },
    {
        match self {
            ConfigError::NoHome => "could not determine home directory".to_string(),
            ConfigError::Expand { root, var, cause } => {
                let a = concat(&chars_of("failed to expand env vars in root: "), &chars_of(root.as_str()));
                let b = concat(&concat(&a, &chars_of(": error looking key '")), &chars_of(var.as_str()));
                let c = concat(&b, &chars_of("' up: "));
                string_of(&concat(&c, &chars_of(cause.as_str())))
            },
        }
    }
}

/// `dirs::home_dir`: the user's home directory, if one is known; its text as
/// `to_string_lossy` gives it. Nothing is stated of the result: it comes from
/// the environment and the user database.
#[verifier::external_body]
pub(crate) fn home_dir() -> (h: Option<String>) {
    dirs::home_dir().map(|p| p.to_string_lossy().to_string())
}

/// `shellexpand::env`: `s` with `$VAR` and `${VAR}` replaced by the values
/// of environment variables; on failure, the name of the variable that could
/// not be read and the text of the reason (`std::env::VarError`'s message).
/// Stated: text without `$` comes back unchanged (the function returns its
/// input as it is when it finds no `$`). What it makes of variables depends
/// on the environment and is not stated.
#[verifier::external_body]
fn expand_env(s: &str) -> (expanded: Result<String, (String, String)>)
    ensures
        s@.contains('$') || (expanded is Ok && expanded->Ok_0@ == s@),
{
    match shellexpand::env(s) {
        Ok(expanded) => Ok(expanded.into_owned()),
        Err(e) => Err((e.var_name, e.cause.to_string())),
    }
}

/// `dirs::config_dir`: the user's configuration directory, if one is
/// known; its text as `to_string_lossy` gives it. Nothing is stated of the
/// result: it comes from the environment.
#[verifier::external_body]
fn config_dir() -> (d: Option<String>) {
    dirs::config_dir().map(|p| p.to_string_lossy().to_string())
}

/// The repository-level configuration file: `<repo>/tree-pool.toml`.
pub fn repo_config_path(repo_root: &str) -> (p: String)
    ensures
        p@ == path_join(repo_root@, "tree-pool.toml"@),
{
    string_of(&join_path(&chars_of(repo_root), &chars_of("tree-pool.toml")))
}

/// The user-level configuration file in the configuration directory `dir`:
/// `<dir>/tree-pool/config.toml`.
pub fn user_config_path_in(dir: &str) -> (p: String)
    ensures
        p@ == path_join(path_join(dir@, "tree-pool"@), "config.toml"@),
{
    let d = join_path(&chars_of(dir), &chars_of("tree-pool"));
    string_of(&join_path(&d, &chars_of("config.toml")))
}

/// The user-level configuration file, when a configuration directory is
/// known.
pub fn user_config_path() -> (p: Option<String>)
    ensures
        p matches Some(f) ==> exists|dir: Seq<char>| f@ == path_join(path_join(dir, "tree-pool"@), "config.toml"@),
{
    match config_dir() {
        Some(d) => Some(user_config_path_in(d.as_str())),
        None => None,
    }
}

/// The configuration in force: the repository's own, else the user's, else
/// the defaults.
pub open spec fn chosen(repo_level: Option<Config>, user_level: Option<Config>) -> Option<Config> {
    match repo_level {
        Some(c) => Some(c),
        None => user_level,
    }
}

/// Where the pool root is once `root` has been expanded to `expanded`:
/// absolute paths stand as they are, relative ones lie under the repository.
pub open spec fn root_from(repo_root: Seq<char>, expanded: Seq<char>) -> Seq<char> {
    if is_absolute(expanded) {
        expanded
    } else {
        path_join(repo_root, expanded)
    }
}

impl Config {
    /// The configuration in force, given the parsed repository-level file
    /// (`<repo>/tree-pool.toml`) and user-level file, each `None` when absent.
    pub fn load(repo_level: Option<Config>, user_level: Option<Config>) -> (c: Config)
        ensures
            match chosen(repo_level, user_level) {
                Some(k) => c == k,
                None => c.max_trees == DEFAULT_MAX_TREES && c.root@ == Seq::<char>::empty(),
            },
    {
        match repo_level {
            Some(c) => c,
            None => match user_level {
                Some(c) => c,
                None => Config::default(),
            },
        }
    }

    /// The pool root given the home directory and the expansion of `root`
    /// that were obtained: the home directory for an empty `root`, else the
    /// expanded path, taken from `repo_root` when relative.
    pub fn resolve_root_with(
        &self,
        repo_root: &str,
        home: Option<String>,
        expanded: Result<String, (String, String)>,
    ) -> (r: Result<String, ConfigError>)
        ensures
            self.root@.len() == 0 ==> match home {
                Some(h) => r matches Ok(p) && p@ == h@,
                None => r matches Err(ConfigError::NoHome),
            },
            self.root@.len() > 0 ==> match expanded {
                Ok(x) => r matches Ok(p) && p@ == root_from(repo_root@, x@),
                Err((v, c)) => r matches Err(ConfigError::Expand { root, var, cause }) && root@
                    == self.root@ && var@ == v@ && cause@ == c@,
            },
    {
        if self.root.as_str().is_empty() {
            return match home {
                Some(h) => Ok(h),
                None => Err(ConfigError::NoHome),
            };
        }
        match expanded {
            Err((v, c)) => Err(ConfigError::Expand { root: self.root.clone(), var: v, cause: c }),
            Ok(x) => {
                let xs = chars_of(x.as_str());
                if absolute(&xs) {
                    Ok(x)
                } else {
                    Ok(string_of(&join_path(&chars_of(repo_root), &xs)))
                }
            },
        }
    }

    /// Resolve `root` to the directory pools live under. An empty `root`
    /// means the home directory; a `root` without `$` is taken as it stands,
    /// relative to `repo_root` unless absolute.
    pub fn resolve_root(&self, repo_root: &str) -> (r: Result<String, ConfigError>)
        ensures
            self.root@.len() == 0 ==> (r is Ok || r matches Err(ConfigError::NoHome)),
            self.root@.len() > 0 && !self.root@.contains('$') ==> (r matches Ok(p) && p@
                == root_from(repo_root@, self.root@)),
            self.root@.len() > 0 ==> (r is Ok || (r matches Err(ConfigError::Expand { root, .. })
                && root@ == self.root@)),
            self.root@.len() > 0 ==> (r matches Ok(p) ==> exists|x: Seq<char>| p@ == root_from(
                repo_root@,
                x,
            )),
    {
        if self.root.as_str().is_empty() {
            self.resolve_root_with(repo_root, home_dir(), Ok(String::new()))
        } else {
            self.resolve_root_with(repo_root, None, expand_env(self.root.as_str()))
        }
    }

    /// The text `tp init` writes, given the TOML form of the defaults.
    pub fn default_toml(serialized_defaults: &str) -> (t: String)
        ensures
            t@ == serialized_defaults@ + default_toml_comment(),
    {
        let mut s = chars_of(serialized_defaults);
        s = concat(&s, &chars_of(INIT_COMMENT));
        string_of(&s)
    }
}

/// The comment that follows the defaults in a new `tree-pool.toml`.
pub const INIT_COMMENT: &'static str = "\n# root = \"\"  # Base directory for the tree pool.\n# Relative paths are relative to the repo root.\n# Supports environment variables, e.g. \"$HOME/worktrees\".\n# Default: home directory (~/.tree-pool/)\n";

pub open spec fn default_toml_comment() -> Seq<char> {
    INIT_COMMENT@
}

} // verus!
