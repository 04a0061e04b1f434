//! The process configuration: the default repository name and the default
//! install location. Loading and saving the configuration file is the
//! caller's concern; the decisions about its contents live here.
use vstd::prelude::*;

use crate::text::str_eq;
use vstd::string::StringExecFns;

verus! {

/// The recognized configuration: the repository used when none is named,
/// and where snippets install by default (`local` or `user`).
pub struct Config {
    pub default_repo: Option<String>,
    pub default_install_location: Option<String>,
}

/// A rejected configuration value.
#[derive(PartialEq, Eq, Structural, Clone, Copy, Debug)]
pub enum ConfigError {
    /// The install location is neither `local` nor `user`.
    InvalidInstallLocation,
}

impl Default for Config {
    /// A fresh configuration holds no choices yet.
    fn default() -> (r: Config)
        ensures
            r.default_repo is None,
            r.default_install_location is None,
    {
        Config { default_repo: None, default_install_location: None }
    }
}

impl Config {
    /// Records the repository to use when none is named. The caller
    /// persists the configuration afterwards.
    pub fn set_default_repo(&mut self, repo_name: String)
        ensures
            final(self).default_repo == Some(repo_name),
            final(self).default_install_location == old(self).default_install_location,
    {
        self.default_repo = Some(repo_name);
    }

    /// The configured default repository name, if any.
    pub fn get_default_repo(&self) -> (r: Option<&str>)
        ensures
            match r {
                Some(s) => self.default_repo matches Some(d) && s@ == d@,
                None => self.default_repo is None,
            },
    {
        match &self.default_repo {
            Some(d) => Some(d.as_str()),
            None => None,
        }
    }

    /// Records where snippets install by default; only `local` and `user`
    /// are accepted.
    pub fn set_default_install_location(&mut self, location: String) -> (r: Result<
        (),
        ConfigError,
    >)
        ensures
            r is Ok <==> (location@ == "local"@ || location@ == "user"@),
            r is Ok ==> final(self).default_install_location == Some(location),
            r is Ok ==> final(self).default_repo == old(self).default_repo,
            r is Err ==> *final(self) == *old(self),
            r is Err ==> r == Err::<(), ConfigError>(ConfigError::InvalidInstallLocation),
    {
        if str_eq(location.as_str(), "local") || str_eq(location.as_str(), "user") {
            self.default_install_location = Some(location);
            Ok(())
        } else {
            Err(ConfigError::InvalidInstallLocation)
        }
    }

    /// Where snippets install by default; an unset choice means `local`.
    pub fn get_default_install_location(&self) -> (r: &str)
        ensures
            r@ == match self.default_install_location {
                Some(l) => l@,
                None => "local"@,
            },
    {
        match &self.default_install_location {
            Some(l) => l.as_str(),
            None => "local",
        }
    }
}

/// Resolves the repository name to work in: the configured default; else
/// the first available repository directory, which the caller must then
/// persist as the new default (the second component says so); else a
/// fixed fallback name.
pub fn resolve_default_repo_name(config: &Config, available: &Vec<String>) -> (r: (String, bool))
    ensures
        match config.default_repo {
            Some(n) => r.1 == false && r.0@ == n@,
            None => if available.len() > 0 {
                r.1 == true && r.0@ == available.deep_view()[0]
            } else {
                r.1 == false && r.0@ == "default"@
            },
        },
{
    match &config.default_repo {
        Some(n) => (n.clone(), false),
        None => {
            if available.len() > 0 {
                (available[0].clone(), true)
            } else {
                let mut d = String::new();
                d.append("default");
                (d, false)
            }
        },
    }
}

/// Whether the chosen repository is among the available ones.
pub fn validate_repo_choice(repo_name: &str, available: &Vec<String>) -> (r: bool)
    ensures
        r == exists|i: int| 0 <= i < available.len() && available.deep_view()[i] == repo_name@,
{
    let n = available.len();
    let mut i: usize = 0;
    while i < n
        invariant
            i <= n,
            n == available.len(),
            forall|k: int| 0 <= k < i ==> available.deep_view()[k] != repo_name@,
        decreases n - i,
    {
        if str_eq(available[i].as_str(), repo_name) {
            proof {
                assert(available.deep_view()[i as int] == repo_name@);
            }
            return true;
        }
        i += 1;
    }
    false
}

} // verus!
