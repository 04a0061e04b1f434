use mdsnippets::config::resolve_default_repo_name;
use mdsnippets::config::validate_repo_choice;
use mdsnippets::config::Config;
use mdsnippets::config::ConfigError;
use mdsnippets::paths::get_app_dir;
use mdsnippets::paths::get_config_path;
use mdsnippets::paths::get_default_repo_dir;
use mdsnippets::paths::get_repos_dir;
use mdsnippets::paths::get_snippets_dir;
use mdsnippets::search::build_search_input;
use mdsnippets::search::find_by_name;
use mdsnippets::search::preview_content;
use mdsnippets::search::selection_name;
use mdsnippets::snippet::Snippet;

fn named(name: &str, content: &str) -> Snippet {
    Snippet {
        id: String::new(),
        name: String::from(name),
        content: String::from(content),
        created_at: String::new(),
        description: None,
    }
}

#[test]
fn default_config_holds_no_choices() {
    let c = Config::default();
    assert!(c.get_default_repo().is_none());
    assert_eq!(c.get_default_install_location(), "local");
}

#[test]
fn default_repo_round_trips_through_the_config() {
    let mut c = Config::default();
    c.set_default_repo(String::from("work"));
    assert_eq!(c.get_default_repo(), Some("work"));
}

#[test]
fn install_location_accepts_only_local_and_user() {
    let mut c = Config::default();
    assert!(c.set_default_install_location(String::from("user")).is_ok());
    assert_eq!(c.get_default_install_location(), "user");
    assert_eq!(
        c.set_default_install_location(String::from("elsewhere")),
        Err(ConfigError::InvalidInstallLocation)
    );
    assert_eq!(c.get_default_install_location(), "user");
}

#[test]
fn repo_name_resolution_configured_autodetect_fallback() {
    let mut c = Config::default();
    c.set_default_repo(String::from("work"));
    let avail = vec![String::from("first"), String::from("second")];
    assert_eq!(resolve_default_repo_name(&c, &avail), (String::from("work"), false));
    let c = Config::default();
    assert_eq!(resolve_default_repo_name(&c, &avail), (String::from("first"), true));
    let none: Vec<String> = Vec::new();
    assert_eq!(resolve_default_repo_name(&c, &none), (String::from("default"), false));
}

#[test]
fn repo_choice_must_name_an_existing_repository() {
    let avail = vec![String::from("work"), String::from("play")];
    assert!(validate_repo_choice("play", &avail));
    assert!(!validate_repo_choice("gone", &avail));
}

#[test]
fn paths_lay_out_the_application_directory() {
    let app = get_app_dir("/home/u");
    assert_eq!(app, "/home/u/.mdsnippets");
    let repos = get_repos_dir(&app);
    assert_eq!(repos, "/home/u/.mdsnippets/repos");
    assert_eq!(get_config_path(&app), "/home/u/.mdsnippets/config.json");
    assert_eq!(get_default_repo_dir(&repos, "work"), "/home/u/.mdsnippets/repos/work");
    assert_eq!(get_snippets_dir(&repos, "work"), "/home/u/.mdsnippets/repos/work");
}

#[test]
fn search_preview_flattens_and_cuts() {
    assert_eq!(preview_content("a\nb", 50), "a b");
    assert_eq!(preview_content("0123456789", 4), "0123...");
}

#[test]
fn search_input_lists_one_line_per_snippet() {
    let input = build_search_input(&vec![named("Tips", "l1\nl2")]);
    assert_eq!(input, "Tips\u{25aa}l1 l2\n");
}

#[test]
fn selection_yields_the_name_before_the_separator() {
    assert_eq!(selection_name("Tips\u{25aa}l1 l2"), "Tips");
    assert_eq!(selection_name("  Tips  "), "Tips");
}

#[test]
fn snippets_are_found_by_exact_name() {
    let list = vec![named("a", ""), named("b", "")];
    assert_eq!(find_by_name(&list, "b"), Some(1));
    assert_eq!(find_by_name(&list, "c"), None);
}
