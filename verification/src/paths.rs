//! The filesystem layout, as path strings built from the caller's home
//! directory: an application directory holding the configuration file and
//! one directory per repository.
use vstd::prelude::*;

use vstd::string::StringExecFns;

verus! {

/// The application directory under the user's home directory.
pub fn get_app_dir(home: &str) -> (r: String)
    ensures
        r@ == home@ + "/.mdsnippets"@,
{
    let mut out = String::new();
    out.append(home);
    out.append("/.mdsnippets");
    proof {
        assert(out@ =~= home@ + "/.mdsnippets"@);
    }
    out
}

/// The directory holding one subdirectory per repository.
pub fn get_repos_dir(app_dir: &str) -> (r: String)
    ensures
        r@ == app_dir@ + "/repos"@,
{
    let mut out = String::new();
    out.append(app_dir);
    out.append("/repos");
    proof {
        assert(out@ =~= app_dir@ + "/repos"@);
    }
    out
}

/// The configuration file inside the application directory.
pub fn get_config_path(app_dir: &str) -> (r: String)
    ensures
        r@ == app_dir@ + "/config.json"@,
{
    let mut out = String::new();
    out.append(app_dir);
    out.append("/config.json");
    proof {
        assert(out@ =~= app_dir@ + "/config.json"@);
    }
    out
}

/// The root directory of the named repository.
pub fn get_default_repo_dir(repos_dir: &str, repo_name: &str) -> (r: String)
    ensures
        r@ == repos_dir@ + "/"@ + repo_name@,
{
    let mut out = String::new();
    out.append(repos_dir);
    out.append("/");
    out.append(repo_name);
    proof {
        assert(out@ =~= repos_dir@ + "/"@ + repo_name@);
    }
    out
}

/// The root directory of the repository snippets are read from and
/// written to: the default repository's directory.
pub fn get_snippets_dir(repos_dir: &str, repo_name: &str) -> (r: String)
    ensures
        r@ == repos_dir@ + "/"@ + repo_name@,
{
    get_default_repo_dir(repos_dir, repo_name)
}

} // verus!
