use vscode_recents::config::Config;
use vscode_recents::config::ConfigError;
use vscode_recents::launch::launch_command;
use vscode_recents::launch::resolve_path;
use vscode_recents::matcher::get_matches;
use vscode_recents::matcher::MatchItem;
use vscode_recents::scan::scan_projects;
use vscode_recents::scan::Project;
use vscode_recents::scan::ScanError;
use vscode_recents::state::identity;
use vscode_recents::state::State;
use vscode_recents::text::find_first;
use vscode_recents::text::last_segment_str;
use vscode_recents::text::remove_first;
use vscode_recents::text::starts_with_str;

fn doc(folder: &str) -> String {
    format!("{{\"folder\": \"{}\"}}", folder)
}

fn project(id: u64, full: &str, short: &str) -> Project {
    Project { id, full_path: full.to_string(), short_name: short.to_string() }
}

fn state_with(prefix: Option<&str>, projects: Vec<Project>) -> State {
    let config = Config::from_parts(prefix.map(|p| p.to_string()), None, None, None);
    State { config, results: projects }
}

#[test]
fn defaults_when_document_is_absent() {
    let cfg = Config::from_parts(None, None, None, None);
    assert!(cfg.prefix.is_none());
    assert_eq!(cfg.command, "code");
    assert_eq!(cfg.icon, "com.visualstudio.code");
    assert_eq!(cfg.workspace, "~/.config/Code/User/workspaceStorage");

    let d = Config::defaults();
    assert!(d.prefix.is_none());
    assert_eq!(d.command, cfg.command);
    assert_eq!(d.icon, cfg.icon);
    assert_eq!(d.workspace, cfg.workspace);
}

#[test]
fn explicit_fields_override_defaults() {
    let cfg = Config::from_parts(
        Some("vs:".to_string()),
        Some("codium".to_string()),
        Some("my.icon".to_string()),
        Some("/srv/ws".to_string()),
    );
    assert_eq!(cfg.prefix.as_deref(), Some("vs:"));
    assert_eq!(cfg.command, "codium");
    assert_eq!(cfg.icon, "my.icon");
    assert_eq!(cfg.workspace, "/srv/ws");
}

#[test]
fn error_labels_are_stable() {
    assert_eq!(ConfigError::Io.label(), "could not read the settings file");
    assert_eq!(ConfigError::Ron.label(), "could not parse the settings document");
    assert_eq!(ScanError::Io.label(), "could not read the metadata file");
    assert_eq!(ScanError::Json.label(), "could not parse the metadata document");
}

#[test]
fn workspace_root_without_tilde_is_unchanged() {
    let cfg = Config::from_parts(None, None, None, Some("/srv/ws".to_string()));
    assert_eq!(cfg.workspace_root(), "/srv/ws");
    let cfg2 = Config::from_parts(None, None, None, Some("/a/~b".to_string()));
    assert_eq!(cfg2.workspace_root(), "/a/~b");
}

#[test]
fn workspace_root_leaves_user_name_tildes_alone() {
    let cfg = Config::from_parts(None, None, None, Some("~user/ws".to_string()));
    assert_eq!(cfg.workspace_root(), "~user/ws");
}

#[test]
fn workspace_root_keeps_the_suffix_after_a_tilde() {
    let cfg = Config::from_parts(None, None, None, Some("~/some/ws".to_string()));
    let root = cfg.workspace_root();
    assert!(root.ends_with("/some/ws"));
}

#[test]
fn workspace_root_default_keeps_storage_suffix() {
    let cfg = Config::from_parts(None, None, None, None);
    let root = cfg.workspace_root();
    assert!(root.ends_with("/.config/Code/User/workspaceStorage"));
}

#[test]
fn scan_assigns_dense_unique_ids() {
    let docs = vec![
        doc("file:///home/u/alpha"),
        doc("file:///home/u/beta"),
        doc("file:///home/u/alpha"),
    ];
    let ps = scan_projects(&docs);
    assert_eq!(ps.len(), 2);
    assert_eq!(ps[0].id, 0);
    assert_eq!(ps[0].full_path, "/home/u/alpha");
    assert_eq!(ps[0].short_name, "alpha");
    assert_eq!(ps[1].id, 1);
    assert_eq!(ps[1].full_path, "/home/u/beta");
    assert_eq!(ps[1].short_name, "beta");
}

#[test]
fn scan_skips_bad_entries_and_keeps_siblings() {
    let docs = vec![
        doc("file:///home/u/alpha"),
        "this is not json".to_string(),
        "{\"folder\": 42}".to_string(),
        "{\"something\": \"file:///home/u/zeta\"}".to_string(),
        doc("file:///"),
        doc("file:///home/u/beta"),
    ];
    let ps = scan_projects(&docs);
    assert_eq!(ps.len(), 2);
    assert_eq!(ps[0].full_path, "/home/u/alpha");
    assert_eq!(ps[0].id, 0);
    assert_eq!(ps[1].full_path, "/home/u/beta");
    assert_eq!(ps[1].id, 1);
}

#[test]
fn scan_parses_json_with_whitespace() {
    let docs = vec!["  { \"folder\" :\n \"file:///x/y\" }  ".to_string()];
    let ps = scan_projects(&docs);
    assert_eq!(ps.len(), 1);
    assert_eq!(ps[0].full_path, "/x/y");
    assert_eq!(ps[0].short_name, "y");
}

#[test]
fn scan_ignores_trailing_slash_for_the_short_name() {
    let docs = vec![doc("file:///home/u/alpha/")];
    let ps = scan_projects(&docs);
    assert_eq!(ps.len(), 1);
    assert_eq!(ps[0].full_path, "/home/u/alpha/");
    assert_eq!(ps[0].short_name, "alpha");
}

#[test]
fn scan_without_scheme_prefix_keeps_path() {
    let docs = vec![doc("/plain/path/proj")];
    let ps = scan_projects(&docs);
    assert_eq!(ps.len(), 1);
    assert_eq!(ps[0].full_path, "/plain/path/proj");
    assert_eq!(ps[0].short_name, "proj");
}

#[test]
fn scan_of_empty_list_is_empty() {
    let docs: Vec<String> = Vec::new();
    let ps = scan_projects(&docs);
    assert!(ps.is_empty());
}

#[test]
fn matcher_returns_exactly_the_containing_short_name() {
    let state = state_with(
        None,
        vec![project(0, "foo/bar", "bar"), project(1, "foo/baz", "baz")],
    );
    let ms = get_matches("bar", &state);
    assert_eq!(ms.len(), 1);
    assert_eq!(ms[0].description, "foo/bar");
    assert_eq!(ms[0].title, "VSCode: bar");
    assert_eq!(ms[0].icon, "com.visualstudio.code");
    assert_eq!(ms[0].id, 0);
}

#[test]
fn matcher_empty_input_yields_nothing() {
    let state = state_with(None, vec![project(0, "foo/bar", "bar")]);
    let ms = get_matches("", &state);
    assert!(ms.is_empty());
}

#[test]
fn matcher_prefix_gates_and_strips() {
    let state = state_with(
        Some("vs:"),
        vec![project(0, "foo/bar", "bar"), project(1, "foo/baz", "baz")],
    );
    let none = get_matches("hello", &state);
    assert!(none.is_empty());
    let some = get_matches("vs:bar", &state);
    assert_eq!(some.len(), 1);
    assert_eq!(some[0].description, "foo/bar");
}

#[test]
fn matcher_strips_only_the_first_prefix_occurrence() {
    let state = state_with(
        Some("vs:"),
        vec![project(0, "/p/xvs:y", "xvs:y"), project(1, "/p/xy", "xy")],
    );
    let ms = get_matches("vs:xvs:y", &state);
    assert_eq!(ms.len(), 1);
    assert_eq!(ms[0].description, "/p/xvs:y");
}

#[test]
fn matcher_prefix_and_empty_rest_matches_everything() {
    let state = state_with(
        Some("vs:"),
        vec![project(0, "foo/bar", "bar"), project(1, "foo/baz", "baz")],
    );
    let ms = get_matches("vs:", &state);
    assert_eq!(ms.len(), 2);
}

#[test]
fn matcher_never_returns_more_than_five() {
    let mut ps: Vec<Project> = Vec::new();
    for i in 0..7u64 {
        let full = format!("/w/proj{}", i);
        let short = format!("proj{}", i);
        ps.push(project(i, &full, &short));
    }
    let state = state_with(None, ps);
    let ms = get_matches("proj", &state);
    assert_eq!(ms.len(), 5);
    for (k, m) in ms.iter().enumerate() {
        assert_eq!(m.id, k as u64);
    }
}

#[test]
fn selection_round_trip_resolves_the_description() {
    let docs = vec![
        doc("file:///home/u/alpha"),
        doc("file:///home/u/beta"),
        doc("file:///home/u/gamma"),
    ];
    let config = Config::from_parts(None, None, None, None);
    let state = State::new(config, &docs);
    let ms: Vec<MatchItem> = get_matches("beta", &state);
    assert_eq!(ms.len(), 1);
    let picked = &ms[0];
    let resolved = resolve_path(&state, picked.id);
    assert_eq!(resolved.as_deref(), Some(picked.description.as_str()));
    let cmd = launch_command(&state, picked.id);
    assert_eq!(cmd.as_deref(), Some("code /home/u/beta"));
}

#[test]
fn unknown_selection_id_aborts_the_launch() {
    let state = state_with(None, vec![project(0, "foo/bar", "bar")]);
    assert!(resolve_path(&state, 7).is_none());
    assert!(launch_command(&state, 7).is_none());
}

#[test]
fn identity_reports_name_and_icon() {
    let id = identity();
    assert_eq!(id.name, "VSCode Recents");
    assert_eq!(id.icon, "com.visualstudio.code");
}

#[test]
fn text_find_first_returns_first_position() {
    assert_eq!(find_first("abcab", "ab"), Some(0));
    assert_eq!(find_first("xabc", "ab"), Some(1));
    assert_eq!(find_first("xyz", "ab"), None);
    assert_eq!(find_first("abc", ""), Some(0));
}

#[test]
fn text_remove_first_removes_one_occurrence() {
    assert_eq!(remove_first("vs:barvs:", "vs:"), "barvs:");
    assert_eq!(remove_first("bar", "vs:"), "bar");
    assert_eq!(remove_first("xvs:y", "vs:"), "xy");
}

#[test]
fn text_last_segment_takes_the_final_component() {
    assert_eq!(last_segment_str("/a/b"), "b");
    assert_eq!(last_segment_str("abc"), "abc");
    assert_eq!(last_segment_str("/a/"), "a");
    assert_eq!(last_segment_str("a/b//"), "b");
    assert_eq!(last_segment_str("///"), "");
    assert_eq!(last_segment_str(""), "");
}

#[test]
fn text_starts_with_checks_prefixes() {
    assert!(starts_with_str("vs:bar", "vs:"));
    assert!(!starts_with_str("bar", "vs:"));
    assert!(starts_with_str("anything", ""));
}

#[test]
fn state_new_keeps_the_config() {
    let docs = vec![doc("file:///home/u/alpha")];
    let config = Config::from_parts(Some("vs:".to_string()), None, None, None);
    let state = State::new(config, &docs);
    assert_eq!(state.config.prefix.as_deref(), Some("vs:"));
    assert_eq!(state.results.len(), 1);
}
