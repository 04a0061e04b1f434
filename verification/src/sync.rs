//! The repository synchronizer's decision logic. The version-control and
//! hosting binaries run outside this crate; each of their results is
//! handed in as a plain exit status with captured output, and the
//! functions here decide the next step: the synchronization state
//! machine (pull, stage, check, commit, push), the classification of
//! failures by their error text, the push-conflict recovery of repository
//! setup, and the derivation of a commit author identity.
//!
//! Failure semantics: remote operations degrade to warnings and never
//! abort a synchronization; only the staged-changes check and the commit
//! decide whether anything is pushed at all.
use vstd::prelude::*;

use crate::text::contains_seq;
use crate::text::lower_of;
use crate::text::trim_spec;
use crate::text::trim;
use crate::text::to_lowercase;
use crate::text::str_contains;
use crate::text::str_eq;
use vstd::string::StringExecFns;
use vstd::string::StrSliceExecFns;

verus! {

/// What an external command came back with: whether it exited
/// successfully, and its captured standard output and error text.
pub struct CmdResult {
    pub ok: bool,
    pub stdout: String,
    pub stderr: String,
}

/// How a completed synchronization ended.
#[derive(PartialEq, Eq, Structural, Clone, Copy, Debug)]
pub enum SyncOutcome {
    /// Nothing was staged: the repository already matches the remote.
    NoChanges,
    /// Local changes were committed and pushed.
    Synced,
    /// The commit could not be created; nothing was pushed.
    CommitFailed,
    /// The commit stands locally but the push was refused; the caller
    /// should surface remediation guidance, not fail.
    PushRejected,
}

/// The synchronization steps, in order; each non-final step stands for
/// the external command about to run.
#[derive(PartialEq, Eq, Structural, Clone, Copy, Debug)]
pub enum SyncPhase {
    Pull,
    Stage,
    Check,
    Commit,
    Push,
    Done(SyncOutcome),
}

/// The external commands the synchronizer asks its caller to run.
#[derive(PartialEq, Eq, Structural, Clone, Copy, Debug)]
pub enum GitCmd {
    PullOriginMain,
    AddAll,
    StatusPorcelain,
    CommitSync,
    PushOriginMain,
}

/// The command a synchronization phase runs, if any.
pub open spec fn sync_action_spec(phase: SyncPhase) -> Option<GitCmd> {
    match phase {
        SyncPhase::Pull => Some(GitCmd::PullOriginMain),
        SyncPhase::Stage => Some(GitCmd::AddAll),
        SyncPhase::Check => Some(GitCmd::StatusPorcelain),
        SyncPhase::Commit => Some(GitCmd::CommitSync),
        SyncPhase::Push => Some(GitCmd::PushOriginMain),
        SyncPhase::Done(_) => None,
    }
}

/// The command to run in the given phase; a finished synchronization
/// runs nothing.
pub fn sync_action(phase: SyncPhase) -> (r: Option<GitCmd>)
    ensures
        r == sync_action_spec(phase),
{
    match phase {
        SyncPhase::Pull => Some(GitCmd::PullOriginMain),
        SyncPhase::Stage => Some(GitCmd::AddAll),
        SyncPhase::Check => Some(GitCmd::StatusPorcelain),
        SyncPhase::Commit => Some(GitCmd::CommitSync),
        SyncPhase::Push => Some(GitCmd::PushOriginMain),
        SyncPhase::Done(_) => None,
    }
}

/// The synchronizer's transition: a failed pull or staging is tolerated;
/// an empty status check ends the run with nothing to push; a failed
/// commit ends it without a push; a failed push still leaves the commit
/// standing locally.
pub open spec fn sync_step_spec(phase: SyncPhase, ev: CmdResult) -> SyncPhase {
    match phase {
        SyncPhase::Pull => SyncPhase::Stage,
        SyncPhase::Stage => SyncPhase::Check,
        SyncPhase::Check => if ev.stdout@.len() == 0 {
            SyncPhase::Done(SyncOutcome::NoChanges)
        } else {
            SyncPhase::Commit
        },
        SyncPhase::Commit => if ev.ok {
            SyncPhase::Push
        } else {
            SyncPhase::Done(SyncOutcome::CommitFailed)
        },
        SyncPhase::Push => if ev.ok {
            SyncPhase::Done(SyncOutcome::Synced)
        } else {
            SyncPhase::Done(SyncOutcome::PushRejected)
        },
        SyncPhase::Done(o) => SyncPhase::Done(o),
    }
}

/// Advances the synchronization by one step, given what the phase's
/// command came back with.
pub fn sync_step(phase: SyncPhase, ev: &CmdResult) -> (r: SyncPhase)
    ensures
        r == sync_step_spec(phase, *ev),
{
    match phase {
        SyncPhase::Pull => SyncPhase::Stage,
        SyncPhase::Stage => SyncPhase::Check,
        SyncPhase::Check => {
            if ev.stdout.as_str().unicode_len() == 0 {
                SyncPhase::Done(SyncOutcome::NoChanges)
            } else {
                SyncPhase::Commit
            }
        },
        SyncPhase::Commit => {
            if ev.ok {
                SyncPhase::Push
            } else {
                SyncPhase::Done(SyncOutcome::CommitFailed)
            }
        },
        SyncPhase::Push => {
            if ev.ok {
                SyncPhase::Done(SyncOutcome::Synced)
            } else {
                SyncPhase::Done(SyncOutcome::PushRejected)
            }
        },
        SyncPhase::Done(o) => SyncPhase::Done(o),
    }
}

/// A warning the caller should surface for a tolerated failure.
#[derive(PartialEq, Eq, Structural, Clone, Copy, Debug)]
pub enum SyncNotice {
    /// The pull failed; the error text is worth showing unless it is
    /// empty or only reports a missing remote branch.
    PullFailed { show_stderr: bool },
    /// Staging failed; the error text is worth showing unless empty.
    StageFailed { show_stderr: bool },
}

/// The warning a phase's result calls for, if any.
pub open spec fn sync_notice_spec(phase: SyncPhase, ev: CmdResult) -> Option<SyncNotice> {
    match phase {
        SyncPhase::Pull => if !ev.ok {
            Some(
                SyncNotice::PullFailed {
                    show_stderr: ev.stderr@.len() > 0 && !contains_seq(
                        ev.stderr@,
                        "no such ref"@,
                    ),
                },
            )
        } else {
            None
        },
        SyncPhase::Stage => if !ev.ok {
            Some(SyncNotice::StageFailed { show_stderr: ev.stderr@.len() > 0 })
        } else {
            None
        },
        _ => None,
    }
}

/// Decides whether the phase's result deserves a warning, and whether its
/// error text should be shown.
pub fn sync_notice(phase: SyncPhase, ev: &CmdResult) -> (r: Option<SyncNotice>)
    ensures
        r == sync_notice_spec(phase, *ev),
{
    match phase {
        SyncPhase::Pull => {
            if !ev.ok {
                let show = ev.stderr.as_str().unicode_len() > 0 && !str_contains(
                    ev.stderr.as_str(),
                    "no such ref",
                );
                Some(SyncNotice::PullFailed { show_stderr: show })
            } else {
                None
            }
        },
        SyncPhase::Stage => {
            if !ev.ok {
                Some(SyncNotice::StageFailed { show_stderr: ev.stderr.as_str().unicode_len() > 0 })
            } else {
                None
            }
        },
        _ => None,
    }
}

/// Law: a synchronization whose staged-changes check comes back empty
/// reports success-with-no-changes and stops there.
pub proof fn lemma_sync_no_changes_stops(ev: CmdResult)
    requires
        ev.stdout@.len() == 0,
    ensures
        sync_step_spec(SyncPhase::Check, ev) == SyncPhase::Done(SyncOutcome::NoChanges),
        sync_action_spec(sync_step_spec(SyncPhase::Check, ev)) is None,
{
}

/// Law: the commit step is reached only from the staged-changes check,
/// and only when that check reported changes; a run that found nothing
/// staged never commits.
pub proof fn lemma_commit_needs_changes(phase: SyncPhase, ev: CmdResult)
    ensures
        sync_step_spec(phase, ev) == SyncPhase::Commit ==> phase == SyncPhase::Check
            && ev.stdout@.len() > 0,
{
}

/// How the hosting service answered a repository-creation request.
#[derive(PartialEq, Eq, Structural, Clone, Copy, Debug)]
pub enum CreateOutcome {
    Created,
    /// The repository already exists; setup proceeds with it.
    AlreadyExists,
    /// Creation failed for another reason; setup falls back to manual
    /// instructions.
    Failed,
}

/// Classifies the hosting CLI's repository-creation result by its error
/// text.
pub fn classify_repo_create(ok: bool, stderr: &str) -> (r: CreateOutcome)
    ensures
        r == (if ok {
            CreateOutcome::Created
        } else if contains_seq(stderr@, "already exists"@) {
            CreateOutcome::AlreadyExists
        } else {
            CreateOutcome::Failed
        }),
{
    if ok {
        CreateOutcome::Created
    } else if str_contains(stderr, "already exists") {
        CreateOutcome::AlreadyExists
    } else {
        CreateOutcome::Failed
    }
}

/// How adding the `origin` remote went.
#[derive(PartialEq, Eq, Structural, Clone, Copy, Debug)]
pub enum RemoteAddOutcome {
    Added,
    /// A remote of that name exists; its URL should be updated instead.
    UpdateExisting,
    Failed,
}

/// Classifies the remote-add result by its error text.
pub fn classify_remote_add(ok: bool, stderr: &str) -> (r: RemoteAddOutcome)
    ensures
        r == (if ok {
            RemoteAddOutcome::Added
        } else if contains_seq(stderr@, "already exists"@) {
            RemoteAddOutcome::UpdateExisting
        } else {
            RemoteAddOutcome::Failed
        }),
{
    if ok {
        RemoteAddOutcome::Added
    } else if str_contains(stderr, "already exists") {
        RemoteAddOutcome::UpdateExisting
    } else {
        RemoteAddOutcome::Failed
    }
}

/// A push rejected because the remote holds history the local copy has
/// not fetched.
pub open spec fn rejected_needs_fetch(stderr: Seq<char>) -> bool {
    contains_seq(stderr, "rejected"@) && contains_seq(stderr, "fetch first"@)
}

/// How the setup's push-with-recovery ended.
#[derive(PartialEq, Eq, Structural, Clone, Copy, Debug)]
pub enum SetupPushResult {
    /// The first push went through.
    Pushed,
    /// The push was first rejected, the histories were merged, and the
    /// one retry went through.
    PushedAfterMerge,
    /// The merge-pull of the existing remote content failed; manual
    /// conflict resolution is needed.
    MergeFailed,
    /// The retried push failed; manual intervention is needed.
    RetryFailed,
    /// The push failed for a reason other than unfetched remote content.
    PushFailed,
}

/// The push-with-recovery steps of repository setup: one push, at most
/// one merge-pull of unrelated histories, and at most one retried push.
#[derive(PartialEq, Eq, Structural, Clone, Copy, Debug)]
pub enum SetupPushPhase {
    TryPush,
    MergePull,
    RetryPush,
    Done(SetupPushResult),
}

/// The setup push transition: a rejection caused by unfetched remote
/// content triggers a merge-pull allowing unrelated histories and one
/// retry; every other failure ends the attempt.
pub open spec fn setup_push_step_spec(phase: SetupPushPhase, ev: CmdResult) -> SetupPushPhase {
    match phase {
        SetupPushPhase::TryPush => if ev.ok {
            SetupPushPhase::Done(SetupPushResult::Pushed)
        } else if rejected_needs_fetch(ev.stderr@) {
            SetupPushPhase::MergePull
        } else {
            SetupPushPhase::Done(SetupPushResult::PushFailed)
        },
        SetupPushPhase::MergePull => if ev.ok {
            SetupPushPhase::RetryPush
        } else {
            SetupPushPhase::Done(SetupPushResult::MergeFailed)
        },
        SetupPushPhase::RetryPush => if ev.ok {
            SetupPushPhase::Done(SetupPushResult::PushedAfterMerge)
        } else {
            SetupPushPhase::Done(SetupPushResult::RetryFailed)
        },
        SetupPushPhase::Done(o) => SetupPushPhase::Done(o),
    }
}

/// Advances the setup push by one step.
pub fn setup_push_step(phase: SetupPushPhase, ev: &CmdResult) -> (r: SetupPushPhase)
    ensures
        r == setup_push_step_spec(phase, *ev),
{
    match phase {
        SetupPushPhase::TryPush => {
            if ev.ok {
                SetupPushPhase::Done(SetupPushResult::Pushed)
            } else if str_contains(ev.stderr.as_str(), "rejected") && str_contains(
                ev.stderr.as_str(),
                "fetch first",
            ) {
                SetupPushPhase::MergePull
            } else {
                SetupPushPhase::Done(SetupPushResult::PushFailed)
            }
        },
        SetupPushPhase::MergePull => {
            if ev.ok {
                SetupPushPhase::RetryPush
            } else {
                SetupPushPhase::Done(SetupPushResult::MergeFailed)
            }
        },
        SetupPushPhase::RetryPush => {
            if ev.ok {
                SetupPushPhase::Done(SetupPushResult::PushedAfterMerge)
            } else {
                SetupPushPhase::Done(SetupPushResult::RetryFailed)
            }
        },
        SetupPushPhase::Done(o) => SetupPushPhase::Done(o),
    }
}

/// Whether to pull, or to clone the well-known default remote because no
/// working copy exists yet.
#[derive(PartialEq, Eq, Structural, Clone, Copy, Debug)]
pub enum PullPlan {
    PullRemote,
    CloneDefault,
}

/// Decides how a pull proceeds: an existing working copy is pulled, a
/// missing one is cloned from the default remote instead.
pub fn plan_pull(git_dir_exists: bool) -> (r: PullPlan)
    ensures
        r == (if git_dir_exists {
            PullPlan::PullRemote
        } else {
            PullPlan::CloneDefault
        }),
{
    if git_dir_exists {
        PullPlan::PullRemote
    } else {
        PullPlan::CloneDefault
    }
}

/// What follows a clone of the default remote.
#[derive(PartialEq, Eq, Structural, Clone, Copy, Debug)]
pub enum CloneFollowUp {
    Done,
    /// The clone failed; a fresh local repository is initialized instead.
    InitLocal,
}

/// Decides what follows the clone attempt: a failure degrades to local
/// initialization, never to an error.
pub fn after_clone(ok: bool) -> (r: CloneFollowUp)
    ensures
        r == (if ok {
            CloneFollowUp::Done
        } else {
            CloneFollowUp::InitLocal
        }),
{
    if ok {
        CloneFollowUp::Done
    } else {
        CloneFollowUp::InitLocal
    }
}

/// A commit author identity to configure for the repository.
pub struct Identity {
    pub username: String,
    pub email: String,
}

/// The fixed fallback username used when no identity can be looked up.
pub open spec fn fallback_username() -> Seq<char> {
    "snippets-user"@
}

/// The no-reply mail domain appended to a username without a public mail
/// address.
pub open spec fn email_suffix() -> Seq<char> {
    "@users.noreply.github.com"@
}

/// What the hosting CLI's identity lookup yields once parsed as JSON:
/// nothing when the output is not a JSON document, else the string values
/// of its `login` and `email` keys, either of which may be absent.
pub uninterp spec fn user_fields_of(s: Seq<char>) -> Option<
    (Option<Seq<char>>, Option<Seq<char>>),
>;

/// The view of a parsed identity-lookup result.
pub open spec fn fields_view(r: Option<(Option<String>, Option<String>)>) -> Option<
    (Option<Seq<char>>, Option<Seq<char>>),
> {
    match r {
        None => None,
        Some((l, e)) => Some(
            (
                match l {
                    Some(x) => Some(x@),
                    None => None,
                },
                match e {
                    Some(x) => Some(x@),
                    None => None,
                },
            ),
        ),
    }
}

/// Relies on `serde_json::from_str` and `serde_json::Value::get` /
/// `Value::as_str`: the parse of a JSON document depends on its text
/// alone, and yields the string values of the `login` and `email` keys.
#[verifier::external_body]
fn parse_user_fields(s: &str) -> (r: Option<(Option<String>, Option<String>)>)
    ensures
        fields_view(r) == user_fields_of(s@),
{
    let parsed: Result<serde_json::Value, serde_json::Error> = serde_json::from_str(s);
    match parsed {
        Ok(v) => {
            let login = v.get("login").and_then(|x| x.as_str()).map(|t| t.to_string());
            let email = v.get("email").and_then(|x| x.as_str()).map(|t| t.to_string());
            Some((login, email))
        },
        Err(_) => None,
    }
}

/// The identity to configure, given whether a global one exists and what
/// the hosting lookup printed: a global identity is reused as it stands;
/// otherwise the looked-up login (or the fixed fallback) with its mail
/// address (or the no-reply address derived from the login).
pub open spec fn derived_identity(global_ok: bool, gh_output: Option<Seq<char>>) -> Option<
    (Seq<char>, Seq<char>),
> {
    if global_ok {
        None
    } else {
        match gh_output {
            None => Some((fallback_username(), fallback_username() + email_suffix())),
            Some(out) => match user_fields_of(out) {
                None => Some((fallback_username(), fallback_username() + email_suffix())),
                Some((login_opt, email_opt)) => {
                    let login = match login_opt {
                        Some(l) => l,
                        None => fallback_username(),
                    };
                    let email = match email_opt {
                        Some(e) => e,
                        None => login + email_suffix(),
                    };
                    (Some((login, email)))
                },
            },
        }
    }
}

/// Derives the identity to configure for the repository. `None` means a
/// usable global identity exists and nothing is configured locally.
pub fn derive_identity(
    global_name_ok: bool,
    global_email_ok: bool,
    gh_user_output: Option<&String>,
) -> (r: Option<Identity>)
    ensures
        ({
            let d = derived_identity(
                global_name_ok && global_email_ok,
                match gh_user_output {
                    Some(s) => Some(s@),
                    None => None,
                },
            );
            match (r, d) {
                (None, None) => true,
                (Some(id), Some(p)) => id.username@ == p.0 && id.email@ == p.1,
                _ => false,
            }
        }),
{
    if global_name_ok && global_email_ok {
        return None;
    }
    let fields = match gh_user_output {
        Some(out) => parse_user_fields(out.as_str()),
        None => None,
    };
    match fields {
        Some((login_opt, email_opt)) => {
            let username = match login_opt {
                Some(l) => l,
                None => {
                    let mut u = String::new();
                    u.append("snippets-user");
                    u
                },
            };
            let email = match email_opt {
                Some(e) => e,
                None => {
                    let mut e = username.clone();
                    e.append("@users.noreply.github.com");
                    e
                },
            };
            Some(Identity { username, email })
        },
        None => {
            let mut u = String::new();
            u.append("snippets-user");
            let mut e = String::new();
            e.append("snippets-user");
            e.append("@users.noreply.github.com");
            Some(Identity { username: u, email: e })
        },
    }
}

/// Law: with no global identity and no hosting lookup available, the
/// derived identity is this fixed pair — the same on every run.
pub proof fn lemma_identity_fallback_deterministic()
    ensures
        derived_identity(false, None) == Some(
            (fallback_username(), fallback_username() + email_suffix()),
        ),
        derived_identity(false, None)->Some_0.0 == "snippets-user"@,
        derived_identity(false, None)->Some_0.1 == "snippets-user@users.noreply.github.com"@,
{
    reveal_strlit("snippets-user");
    reveal_strlit("@users.noreply.github.com");
    reveal_strlit("snippets-user@users.noreply.github.com");
    assert(fallback_username() + email_suffix()
        =~= "snippets-user@users.noreply.github.com"@);
}

/// The resolved repository settings for setup: a provided name keeps the
/// private default; otherwise the visibility answer decides (anything but
/// `p` or `public` stays private), and a blank name answer falls back to
/// the default name for that visibility.
pub fn choose_repo_settings(
    provided: Option<String>,
    visibility_answer: &str,
    name_answer: &str,
) -> (r: (bool, String))
    ensures
        ({
            match provided {
                Some(n) => r.0 == true && r.1@ == n@,
                None => {
                    let vis = lower_of(trim_spec(visibility_answer@));
                    let is_private = !(vis == "p"@ || vis == "public"@);
                    let nm = trim_spec(name_answer@);
                    &&& r.0 == is_private
                    &&& r.1@ == if nm.len() == 0 {
                        if is_private {
                            "md-snippets-private"@
                        } else {
                            "md-snippets"@
                        }
                    } else {
                        nm
                    }
                },
            }
        }),
{
    match provided {
        Some(n) => (true, n),
        None => {
            let vis_trimmed = trim(visibility_answer);
            let vis = to_lowercase(vis_trimmed.as_str());
            let is_private = !(str_eq(vis.as_str(), "p") || str_eq(vis.as_str(), "public"));
            let name = trim(name_answer);
            if name.as_str().unicode_len() == 0 {
                let mut d = String::new();
                if is_private {
                    d.append("md-snippets-private");
                } else {
                    d.append("md-snippets");
                }
                (is_private, d)
            } else {
                (is_private, name)
            }
        },
    }
}

/// The HTTPS remote URL of a hosted repository.
pub fn remote_url_of(username: &str, repo_name: &str) -> (r: String)
    ensures
        r@ == "https://github.com/"@ + username@ + "/"@ + repo_name@ + ".git"@,
{
    let mut out = String::new();
    out.append("https://github.com/");
    out.append(username);
    out.append("/");
    out.append(repo_name);
    out.append(".git");
    proof {
        assert(out@ =~= "https://github.com/"@ + username@ + "/"@ + repo_name@ + ".git"@);
    }
    out
}

/// The browser URL for a configured remote: an SSH remote is rewritten to
/// HTTPS and stripped of its `.git` suffix; an HTTPS remote is stripped
/// of the suffix; anything else is kept as it stands. A rewritten remote
/// without the suffix falls back to the original, unrewritten URL.
pub fn browser_url_of(remote_url: &str) -> (r: String)
    ensures
        ({
            let u = remote_url@;
            if crate::text::starts_with_seq(u, "git@github.com:"@) {
                let rewritten = crate::text::replace_all(
                    u,
                    "git@github.com:"@,
                    "https://github.com/"@,
                );
                if rewritten.len() >= 4 && rewritten.subrange(
                    rewritten.len() - 4,
                    rewritten.len() as int,
                ) == ".git"@ {
                    r@ == rewritten.subrange(0, rewritten.len() - 4)
                } else {
                    r@ == u
                }
            } else if crate::text::starts_with_seq(u, "https://github.com/"@) {
                if u.len() >= 4 && u.subrange(u.len() - 4, u.len() as int) == ".git"@ {
                    r@ == u.subrange(0, u.len() - 4)
                } else {
                    r@ == u
                }
            } else {
                r@ == u
            }
        }),
{
    if crate::text::str_starts_with(remote_url, "git@github.com:") {
        proof {
            reveal_strlit("git@github.com:");
        }
        let rewritten = crate::text::replace_all_str(
            remote_url,
            "git@github.com:",
            "https://github.com/",
        );
        let n = rewritten.as_str().unicode_len();
        if n >= 4 && crate::text::str_eq(rewritten.as_str().substring_char(n - 4, n), ".git") {
            String::from_str(rewritten.as_str().substring_char(0, n - 4))
        } else {
            String::from_str(remote_url)
        }
    } else if crate::text::str_starts_with(remote_url, "https://github.com/") {
        let n = remote_url.unicode_len();
        if n >= 4 && crate::text::str_eq(remote_url.substring_char(n - 4, n), ".git") {
            String::from_str(remote_url.substring_char(0, n - 4))
        } else {
            String::from_str(remote_url)
        }
    } else {
        String::from_str(remote_url)
    }
}

/// The baseline ignore file written into a fresh repository.
pub fn default_gitignore() -> (r: String)
    ensures
        r@ == "# Temp files\n*.tmp\n*.swp\n*~\n\n# OS files\n.DS_Store\nThumbs.db\n"@,
{
    let mut out = String::new();
    out.append("# Temp files\n*.tmp\n*.swp\n*~\n\n# OS files\n.DS_Store\nThumbs.db\n");
    out
}

/// The README written into a fresh repository.
pub fn default_readme() -> (r: String)
    ensures
        r@
            == "# MD Snippets\n\nThis repository contains shared markdown snippets.\n\n## Structure\n\n- `snippets/` - Contains all snippet files\n- Each snippet is stored as a markdown file with YAML frontmatter\n\n## Usage\n\nUse the `md-snippets` CLI tool to publish, install, and search snippets.\n"@,
{
    let mut out = String::new();
    out.append(
        "# MD Snippets\n\nThis repository contains shared markdown snippets.\n\n## Structure\n\n- `snippets/` - Contains all snippet files\n- Each snippet is stored as a markdown file with YAML frontmatter\n\n## Usage\n\nUse the `md-snippets` CLI tool to publish, install, and search snippets.\n",
    );
    out
}

/// The fixed message of every synchronization commit.
pub fn sync_commit_message() -> (r: String)
    ensures
        r@ == "Sync snippets: add/modify/remove files"@,
{
    let mut out = String::new();
    out.append("Sync snippets: add/modify/remove files");
    out
}

} // verus!
