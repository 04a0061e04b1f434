use mdsnippets::sync::after_clone;
use mdsnippets::sync::browser_url_of;
use mdsnippets::sync::choose_repo_settings;
use mdsnippets::sync::classify_remote_add;
use mdsnippets::sync::classify_repo_create;
use mdsnippets::sync::default_gitignore;
use mdsnippets::sync::default_readme;
use mdsnippets::sync::derive_identity;
use mdsnippets::sync::plan_pull;
use mdsnippets::sync::remote_url_of;
use mdsnippets::sync::setup_push_step;
use mdsnippets::sync::sync_action;
use mdsnippets::sync::sync_commit_message;
use mdsnippets::sync::sync_notice;
use mdsnippets::sync::sync_step;
use mdsnippets::sync::CloneFollowUp;
use mdsnippets::sync::CmdResult;
use mdsnippets::sync::CreateOutcome;
use mdsnippets::sync::GitCmd;
use mdsnippets::sync::PullPlan;
use mdsnippets::sync::RemoteAddOutcome;
use mdsnippets::sync::SetupPushPhase;
use mdsnippets::sync::SetupPushResult;
use mdsnippets::sync::SyncNotice;
use mdsnippets::sync::SyncOutcome;
use mdsnippets::sync::SyncPhase;

fn ok() -> CmdResult {
    CmdResult { ok: true, stdout: String::new(), stderr: String::new() }
}

fn ok_with_stdout(stdout: &str) -> CmdResult {
    CmdResult { ok: true, stdout: String::from(stdout), stderr: String::new() }
}

fn failed(stderr: &str) -> CmdResult {
    CmdResult { ok: false, stdout: String::new(), stderr: String::from(stderr) }
}

#[test]
fn sync_reports_no_changes_and_stops_without_staged_work() {
    // Second run over an unchanged tree: pull, stage, then an empty
    // status check ends the synchronization without any commit.
    let mut phase = SyncPhase::Pull;
    assert_eq!(sync_action(phase), Some(GitCmd::PullOriginMain));
    phase = sync_step(phase, &ok());
    assert_eq!(sync_action(phase), Some(GitCmd::AddAll));
    phase = sync_step(phase, &ok());
    assert_eq!(sync_action(phase), Some(GitCmd::StatusPorcelain));
    phase = sync_step(phase, &ok_with_stdout(""));
    assert_eq!(phase, SyncPhase::Done(SyncOutcome::NoChanges));
    assert_eq!(sync_action(phase), None);
}

#[test]
fn sync_commits_and_pushes_staged_changes() {
    let mut phase = SyncPhase::Check;
    phase = sync_step(phase, &ok_with_stdout("M snippets/a.md\n"));
    assert_eq!(phase, SyncPhase::Commit);
    phase = sync_step(phase, &ok());
    assert_eq!(phase, SyncPhase::Push);
    phase = sync_step(phase, &ok());
    assert_eq!(phase, SyncPhase::Done(SyncOutcome::Synced));
}

#[test]
fn sync_tolerates_pull_failure_and_push_rejection() {
    let mut phase = SyncPhase::Pull;
    phase = sync_step(phase, &failed("could not read from remote"));
    assert_eq!(phase, SyncPhase::Stage);
    phase = sync_step(phase, &ok());
    phase = sync_step(phase, &ok_with_stdout("A x"));
    phase = sync_step(phase, &ok());
    phase = sync_step(phase, &failed("permission denied"));
    assert_eq!(phase, SyncPhase::Done(SyncOutcome::PushRejected));
}

#[test]
fn sync_stops_when_commit_fails() {
    let phase = sync_step(SyncPhase::Commit, &failed("nothing to commit"));
    assert_eq!(phase, SyncPhase::Done(SyncOutcome::CommitFailed));
}

#[test]
fn pull_warning_suppresses_missing_branch_detail() {
    let n = sync_notice(SyncPhase::Pull, &failed("fatal: no such ref was fetched"));
    assert_eq!(n, Some(SyncNotice::PullFailed { show_stderr: false }));
    let n = sync_notice(SyncPhase::Pull, &failed("network unreachable"));
    assert_eq!(n, Some(SyncNotice::PullFailed { show_stderr: true }));
    assert_eq!(sync_notice(SyncPhase::Pull, &ok()), None);
}

#[test]
fn create_classification_reads_error_text() {
    assert_eq!(classify_repo_create(true, ""), CreateOutcome::Created);
    assert_eq!(
        classify_repo_create(false, "repository already exists on this account"),
        CreateOutcome::AlreadyExists
    );
    assert_eq!(classify_repo_create(false, "rate limited"), CreateOutcome::Failed);
}

#[test]
fn remote_add_classification_reads_error_text() {
    assert_eq!(classify_remote_add(true, ""), RemoteAddOutcome::Added);
    assert_eq!(
        classify_remote_add(false, "error: remote origin already exists."),
        RemoteAddOutcome::UpdateExisting
    );
    assert_eq!(classify_remote_add(false, "bad remote"), RemoteAddOutcome::Failed);
}

#[test]
fn setup_push_recovers_from_unfetched_remote_content_once() {
    let mut phase = SetupPushPhase::TryPush;
    phase = setup_push_step(phase, &failed("! [rejected] main -> main (fetch first)"));
    assert_eq!(phase, SetupPushPhase::MergePull);
    phase = setup_push_step(phase, &ok());
    assert_eq!(phase, SetupPushPhase::RetryPush);
    phase = setup_push_step(phase, &ok());
    assert_eq!(phase, SetupPushPhase::Done(SetupPushResult::PushedAfterMerge));
}

#[test]
fn setup_push_gives_up_on_other_failures() {
    assert_eq!(
        setup_push_step(SetupPushPhase::TryPush, &failed("auth failed")),
        SetupPushPhase::Done(SetupPushResult::PushFailed)
    );
    assert_eq!(
        setup_push_step(SetupPushPhase::MergePull, &failed("merge conflict")),
        SetupPushPhase::Done(SetupPushResult::MergeFailed)
    );
    assert_eq!(
        setup_push_step(SetupPushPhase::RetryPush, &failed("still rejected")),
        SetupPushPhase::Done(SetupPushResult::RetryFailed)
    );
}

#[test]
fn pull_plan_clones_when_no_working_copy_exists() {
    assert_eq!(plan_pull(false), PullPlan::CloneDefault);
    assert_eq!(plan_pull(true), PullPlan::PullRemote);
    assert_eq!(after_clone(false), CloneFollowUp::InitLocal);
    assert_eq!(after_clone(true), CloneFollowUp::Done);
}

#[test]
fn identity_fallback_is_fixed_and_deterministic() {
    let a = derive_identity(false, false, None).unwrap();
    let b = derive_identity(false, false, None).unwrap();
    assert_eq!(a.username, "snippets-user");
    assert_eq!(a.email, "snippets-user@users.noreply.github.com");
    assert_eq!(a.username, b.username);
    assert_eq!(a.email, b.email);
}

#[test]
fn identity_prefers_the_hosting_lookup() {
    let out = String::from("{\"login\": \"alice\", \"email\": \"alice@example.com\"}");
    let id = derive_identity(false, true, Some(&out)).unwrap();
    assert_eq!(id.username, "alice");
    assert_eq!(id.email, "alice@example.com");
}

#[test]
fn identity_derives_noreply_address_without_public_mail() {
    let out = String::from("{\"login\": \"alice\", \"email\": null}");
    let id = derive_identity(false, false, Some(&out)).unwrap();
    assert_eq!(id.username, "alice");
    assert_eq!(id.email, "alice@users.noreply.github.com");
}

#[test]
fn identity_falls_back_on_unparseable_lookup_output() {
    let out = String::from("not json at all");
    let id = derive_identity(false, false, Some(&out)).unwrap();
    assert_eq!(id.username, "snippets-user");
    assert_eq!(id.email, "snippets-user@users.noreply.github.com");
}

#[test]
fn identity_defers_to_a_complete_global_identity() {
    assert!(derive_identity(true, true, None).is_none());
    assert!(derive_identity(true, false, None).is_some());
}

#[test]
fn remote_urls_are_built_and_rewritten() {
    assert_eq!(remote_url_of("alice", "snips"), "https://github.com/alice/snips.git");
    assert_eq!(
        browser_url_of("git@github.com:alice/snips.git"),
        "https://github.com/alice/snips"
    );
    assert_eq!(
        browser_url_of("https://github.com/alice/snips.git"),
        "https://github.com/alice/snips"
    );
    assert_eq!(browser_url_of("https://github.com/alice/snips"), "https://github.com/alice/snips");
    assert_eq!(browser_url_of("ssh://elsewhere/repo"), "ssh://elsewhere/repo");
}

#[test]
fn repo_settings_follow_visibility_and_name_answers() {
    let (private, name) = choose_repo_settings(Some(String::from("given")), "", "");
    assert!(private);
    assert_eq!(name, "given");
    let (private, name) = choose_repo_settings(None, "p\n", "  \n");
    assert!(!private);
    assert_eq!(name, "md-snippets");
    let (private, name) = choose_repo_settings(None, "\n", "\n");
    assert!(private);
    assert_eq!(name, "md-snippets-private");
    let (private, name) = choose_repo_settings(None, "PUBLIC\n", " myrepo \n");
    assert!(!private);
    assert_eq!(name, "myrepo");
}

#[test]
fn fresh_repository_boilerplate_is_fixed() {
    assert!(default_gitignore().contains("*.tmp"));
    assert!(default_readme().starts_with("# MD Snippets"));
    assert_eq!(sync_commit_message(), "Sync snippets: add/modify/remove files");
}
