use homebrew_manager::brew::{job_finished, BrewStatus, Event, OutdatedPackage, Package};
use homebrew_manager::manager::{
    name_matches, Action, BrewState, HomebrewManagerApp, Maintenance, Tab,
};

fn found(app: &mut HomebrewManagerApp) {
    let status = BrewStatus {
        installed: true,
        version: "Homebrew 4.3.1".to_string(),
        prefix: "/opt/homebrew".to_string(),
        brew_path: Some("/opt/homebrew/bin/brew".to_string()),
    };
    let actions = app.handle_event(Event::Status(status));
    assert_eq!(actions.len(), 2);
}

fn pkg(name: &str) -> Package {
    Package { name: name.to_string(), version: "1.0".to_string() }
}

fn run_args(a: &Action) -> Vec<Vec<String>> {
    match a {
        Action::Run(cmds) => cmds.iter().map(|c| c.args.clone()).collect(),
        a => panic!("unexpected {a:?}"),
    }
}

fn strs(v: &[&str]) -> Vec<String> {
    v.iter().map(|s| s.to_string()).collect()
}

#[test]
fn starts_on_status_page_and_looks_for_brew() {
    let (app, actions) = HomebrewManagerApp::new();
    assert_eq!(app.tab(), Tab::Status);
    assert!(!app.busy());
    assert!(!app.status_checked());
    assert!(app.autoscroll_log());
    assert!(app.log().is_empty());
    assert_eq!(actions.len(), 1);
    assert!(matches!(actions[0], Action::RefreshStatus));
}

#[test]
fn found_brew_triggers_list_refresh() {
    let (mut app, _) = HomebrewManagerApp::new();
    let status = BrewStatus {
        installed: true,
        version: String::new(),
        prefix: String::new(),
        brew_path: Some("/b".to_string()),
    };
    let actions = app.handle_event(Event::Status(status));
    assert!(app.status_checked());
    assert!(matches!(&actions[0], Action::RefreshInstalled(p) if p == "/b"));
    assert!(matches!(&actions[1], Action::RefreshOutdated(p) if p == "/b"));
    let actions = app.handle_event(Event::Status(BrewStatus::default()));
    assert!(actions.is_empty());
    assert!(app.brew_path().is_none());
}

#[test]
fn job_lifecycle_logs_start_and_end() {
    let (mut app, _) = HomebrewManagerApp::new();
    found(&mut app);
    let actions = app.run_maintenance(Maintenance::Cleanup);
    assert_eq!(run_args(&actions[0]), vec![strs(&["cleanup", "-s"])]);
    assert!(app.busy());
    assert_eq!(app.current_op().as_deref(), Some("Cleanup"));
    app.handle_event(Event::Log("Removing: foo".to_string()));
    let actions = app.handle_event(Event::Finished { success: true, exit_code: Some(0) });
    assert!(!app.busy());
    assert!(app.current_op().is_none());
    assert_eq!(
        app.log(),
        &strs(&["$ Cleanup", "Removing: foo", "[Cleanup] finished (exit 0, success=true)"])
    );
    assert!(matches!(&actions[0], Action::RefreshInstalled(p) if p == "/opt/homebrew/bin/brew"));
    assert!(matches!(&actions[1], Action::RefreshOutdated(_)));
}

#[test]
fn finished_summaries() {
    let (mut app, _) = HomebrewManagerApp::new();
    found(&mut app);
    app.run_maintenance(Maintenance::Doctor);
    let actions = app.handle_event(Event::Finished { success: false, exit_code: Some(-2147483648) });
    assert!(actions.is_empty());
    assert_eq!(app.log()[1], "[Doctor] finished (exit -2147483648, success=false)");
    let actions = app.handle_event(Event::Finished { success: true, exit_code: None });
    assert!(actions.is_empty());
    assert_eq!(app.log()[2], "[] finished (success=true)");
    app.run_maintenance(Maintenance::Update);
    let actions = app.handle_event(Event::Finished { success: true, exit_code: Some(17) });
    assert_eq!(app.log()[4], "[Update (brew update)] finished (exit 17, success=true)");
    assert_eq!(actions.len(), 1);
    assert!(matches!(&actions[0], Action::RefreshOutdated(_)));
}

#[test]
fn installing_homebrew_rechecks_status_on_success() {
    let (mut app, _) = HomebrewManagerApp::new();
    app.handle_event(Event::Status(BrewStatus::default()));
    let actions = app.request_install_homebrew();
    assert_eq!(actions.len(), 1);
    match &actions[0] {
        Action::Run(cmds) => {
            assert_eq!(cmds.len(), 1);
            assert_eq!(cmds[0].program, "bash");
        }
        a => panic!("unexpected {a:?}"),
    }
    assert!(app.busy());
    assert!(app.request_install_homebrew().is_empty());
    // No brew path is known yet; brew is looked for again all the same.
    let actions = app.handle_event(Event::Finished { success: true, exit_code: Some(0) });
    assert_eq!(actions.len(), 1);
    assert!(matches!(actions[0], Action::RefreshStatus));
    assert!(!app.busy());
}

#[test]
fn failed_homebrew_install_is_not_rechecked() {
    let (mut app, _) = HomebrewManagerApp::new();
    app.handle_event(Event::Status(BrewStatus::default()));
    app.request_install_homebrew();
    let actions = app.handle_event(Event::Finished { success: false, exit_code: Some(1) });
    assert!(actions.is_empty());
}

#[test]
fn selection_toggles_and_undo() {
    let (mut app, _) = HomebrewManagerApp::new();
    let wget = "wget".to_string();
    app.select_installed(&wget, true);
    app.select_installed(&wget, true);
    assert_eq!(app.selected_installed_count(), 1);
    assert!(app.is_installed_selected(&wget));
    app.select_installed(&wget, false);
    assert_eq!(app.selected_installed_count(), 0);
    assert!(!app.is_installed_selected(&wget));
}

#[test]
fn uninstall_splits_formulae_and_casks() {
    let (mut app, _) = HomebrewManagerApp::new();
    found(&mut app);
    app.handle_event(Event::InstalledFormulae(vec![pkg("wget"), pkg("jq")]));
    app.handle_event(Event::InstalledCasks(vec![pkg("firefox")]));
    for n in ["firefox", "wget", "ghost"] {
        app.select_installed(&n.to_string(), true);
    }
    let actions = app.uninstall_selected();
    assert_eq!(
        run_args(&actions[0]),
        vec![strs(&["uninstall", "wget"]), strs(&["uninstall", "--cask", "firefox"])]
    );
    assert_eq!(app.selected_installed_count(), 0);
    assert_eq!(app.log()[0], "$ Uninstall");
    // busy: nothing more starts
    app.select_installed(&"jq".to_string(), true);
    assert!(app.uninstall_selected().is_empty());
    assert!(app.upgrade_selected_installed().is_empty());
    assert!(app.request_installed_list().is_empty());
    assert_eq!(app.selected_installed_count(), 1);
}

#[test]
fn upgrade_selected_installed_and_outdated() {
    let (mut app, _) = HomebrewManagerApp::new();
    found(&mut app);
    assert!(app.upgrade_selected_installed().is_empty());
    app.select_installed(&"jq".to_string(), true);
    let actions = app.upgrade_selected_installed();
    assert_eq!(run_args(&actions[0]), vec![strs(&["upgrade", "jq"])]);
    app.handle_event(Event::Finished { success: true, exit_code: Some(0) });
    app.select_outdated(&"git".to_string(), true);
    let actions = app.upgrade_selected_outdated();
    assert_eq!(run_args(&actions[0]), vec![strs(&["upgrade", "git"])]);
    assert_eq!(app.selected_outdated_count(), 0);
}

#[test]
fn upgrade_all_needs_outdated_packages() {
    let (mut app, _) = HomebrewManagerApp::new();
    found(&mut app);
    assert!(app.upgrade_everything().is_empty());
    app.handle_event(Event::Outdated(vec![OutdatedPackage {
        name: "git".to_string(),
        current: "1".to_string(),
        latest: "2".to_string(),
        pinned: false,
        is_cask: false,
    }]));
    assert_eq!(app.outdated().len(), 1);
    let actions = app.upgrade_everything();
    assert_eq!(run_args(&actions[0]), vec![strs(&["upgrade"])]);
    assert_eq!(app.current_op().as_deref(), Some("Upgrade All"));
}

#[test]
fn pin_is_offered_while_busy() {
    let (mut app, _) = HomebrewManagerApp::new();
    found(&mut app);
    app.run_maintenance(Maintenance::Autoremove);
    let actions = app.set_pinned(&"node".to_string(), true);
    assert_eq!(run_args(&actions[0]), vec![strs(&["pin", "node"])]);
    assert_eq!(app.current_op().as_deref(), Some("Pin"));
    let actions = app.set_pinned(&"node".to_string(), false);
    assert_eq!(run_args(&actions[0]), vec![strs(&["unpin", "node"])]);
}

#[test]
fn search_trims_query_and_installs() {
    let (mut app, _) = HomebrewManagerApp::new();
    assert!(app.request_search().is_empty());
    found(&mut app);
    app.set_search_query("   ".to_string());
    assert!(app.request_search().is_empty());
    app.set_search_query("  wget ".to_string());
    let actions = app.request_search();
    assert!(matches!(&actions[0], Action::Search(p, q) if p == "/opt/homebrew/bin/brew" && q == "wget"));
    app.handle_event(Event::SearchResults(strs(&["wget", "wgetpaste"])));
    assert_eq!(app.search_results().len(), 2);
    app.set_install_as_cask(true);
    app.select_search(&"wgetpaste".to_string(), true);
    assert!(app.is_search_selected(&"wgetpaste".to_string()));
    let actions = app.install_selected();
    assert_eq!(run_args(&actions[0]), vec![strs(&["install", "--cask", "wgetpaste"])]);
    assert_eq!(app.selected_search_count(), 0);
    assert!(app.install_one(&"wget".to_string()).is_empty());
    app.handle_event(Event::Finished { success: true, exit_code: Some(0) });
    app.set_install_as_cask(false);
    let actions = app.install_one(&"wget".to_string());
    assert_eq!(run_args(&actions[0]), vec![strs(&["install", "wget"])]);
}

#[test]
fn info_window_opens_and_closes() {
    let (mut app, _) = HomebrewManagerApp::new();
    assert!(app.request_info(&"jq".to_string()).is_empty());
    found(&mut app);
    let actions = app.request_info(&"jq".to_string());
    assert!(matches!(&actions[0], Action::Info(_, n) if n == "jq"));
    app.handle_event(Event::Info("jq".to_string(), "jq: stable".to_string()));
    assert_eq!(app.info_name().as_deref(), Some("jq"));
    assert_eq!(app.info_text(), "jq: stable");
    app.close_info();
    assert!(app.info_name().is_none());
}

#[test]
fn filter_matches_names_ignoring_case() {
    let (mut app, _) = HomebrewManagerApp::new();
    app.handle_event(Event::InstalledFormulae(vec![pkg("wget"), pkg("jq"), pkg("WgetPaste")]));
    app.handle_event(Event::InstalledCasks(vec![pkg("firefox")]));
    app.set_installed_filter("WG".to_string());
    let (f, c) = app.installed_rows();
    let names: Vec<&str> = f.iter().map(|p| p.name.as_str()).collect();
    assert_eq!(names, vec!["wget", "WgetPaste"]);
    assert!(c.is_empty());
    app.set_installed_filter(String::new());
    let (f, c) = app.installed_rows();
    assert_eq!(f.len(), 3);
    assert_eq!(c.len(), 1);
    assert_eq!(app.installed_filter(), "");
}

#[test]
fn recheck_and_console_controls() {
    let (mut app, _) = HomebrewManagerApp::new();
    app.handle_event(Event::Status(BrewStatus::default()));
    assert!(app.status_checked());
    let actions = app.recheck_status();
    assert!(matches!(actions[0], Action::RefreshStatus));
    assert!(!app.status_checked());
    app.handle_event(Event::Log("x".to_string()));
    app.clear_log();
    assert!(app.log().is_empty());
    app.set_autoscroll_log(false);
    assert!(!app.autoscroll_log());
    app.set_tab(Tab::Updates);
    assert_eq!(app.tab(), Tab::Updates);
    assert!(!app.status().installed);
}

#[test]
fn maintenance_tasks_and_refresh_buttons() {
    let (mut app, _) = HomebrewManagerApp::new();
    assert!(app.run_maintenance(Maintenance::Doctor).is_empty());
    found(&mut app);
    assert!(matches!(&app.request_outdated_list()[0], Action::RefreshOutdated(_)));
    assert!(matches!(&app.request_installed_list()[0], Action::RefreshInstalled(_)));
    let a = app.run_maintenance(Maintenance::Doctor);
    assert_eq!(run_args(&a[0]), vec![strs(&["doctor"])]);
    assert!(app.run_maintenance(Maintenance::Autoremove).is_empty());
    assert!(app.recheck_status().is_empty());
    assert!(app.request_outdated_list().is_empty());
}

#[test]
fn jobs_run_the_brew_that_was_found() {
    let (mut app, _) = HomebrewManagerApp::new();
    found(&mut app);
    app.handle_event(Event::InstalledFormulae(vec![pkg("wget")]));
    app.handle_event(Event::InstalledCasks(vec![pkg("iterm2")]));
    app.select_installed(&"wget".to_string(), true);
    app.select_installed(&"iterm2".to_string(), true);
    let actions = app.uninstall_selected();
    match &actions[0] {
        Action::Run(cmds) => {
            assert_eq!(cmds.len(), 2);
            for c in cmds {
                assert_eq!(c.program, "/opt/homebrew/bin/brew");
                assert!(c.envs.is_empty());
            }
        }
        a => panic!("unexpected {a:?}"),
    }
}

#[test]
fn events_never_remove_console_lines() {
    let (mut app, _) = HomebrewManagerApp::new();
    app.handle_event(Event::Log("one".to_string()));
    app.handle_event(Event::SearchResults(vec![]));
    app.handle_event(Event::Info("a".to_string(), "b".to_string()));
    app.handle_event(Event::Finished { success: true, exit_code: Some(1) });
    assert_eq!(app.log(), &strs(&["one", "[] finished (exit 1, success=true)"]));
}

#[test]
fn stale_uninstall_selection_starts_an_empty_job() {
    let (mut app, _) = HomebrewManagerApp::new();
    found(&mut app);
    app.handle_event(Event::InstalledFormulae(vec![pkg("jq")]));
    app.select_installed(&"gone".to_string(), true);
    let actions = app.uninstall_selected();
    assert_eq!(actions.len(), 1);
    assert!(run_args(&actions[0]).is_empty());
    assert!(app.busy());
    assert_eq!(app.current_op().as_deref(), Some("Uninstall"));
    assert_eq!(app.log().to_vec(), strs(&["$ Uninstall"]));
    assert_eq!(app.selected_installed_count(), 0);
    let end = job_finished(&Vec::new());
    let next = app.handle_event(end);
    assert!(!app.busy());
    assert!(app.current_op().is_none());
    assert_eq!(
        app.log().to_vec(),
        strs(&["$ Uninstall", "[Uninstall] finished (success=true)"])
    );
    assert_eq!(next.len(), 2);
}

#[test]
fn brew_state_and_shown_version() {
    let (mut app, _) = HomebrewManagerApp::new();
    assert_eq!(app.brew_state(), BrewState::Checking);
    assert!(app.shown_version().is_none());
    app.handle_event(Event::Status(BrewStatus::default()));
    assert_eq!(app.brew_state(), BrewState::NotFound);
    let status = BrewStatus {
        installed: true,
        version: String::new(),
        prefix: String::new(),
        brew_path: Some("/b".to_string()),
    };
    app.handle_event(Event::Status(status));
    assert_eq!(app.brew_state(), BrewState::Installed);
    assert!(app.shown_version().is_none());
    found(&mut app);
    assert_eq!(app.shown_version().as_deref(), Some("Homebrew 4.3.1"));
}

#[test]
fn toggle_pin_flips_the_pinned_state() {
    let (mut app, _) = HomebrewManagerApp::new();
    found(&mut app);
    let mut p = OutdatedPackage {
        name: "node".to_string(),
        current: "18".to_string(),
        latest: "20".to_string(),
        pinned: true,
        is_cask: false,
    };
    let actions = app.toggle_pin(&p);
    assert_eq!(run_args(&actions[0]), vec![strs(&["unpin", "node"])]);
    assert_eq!(app.current_op().as_deref(), Some("Unpin"));
    p.pinned = false;
    let actions = app.toggle_pin(&p);
    assert_eq!(run_args(&actions[0]), vec![strs(&["pin", "node"])]);
}

#[test]
fn name_matches_on_lowercase_text() {
    assert!(name_matches("", "anything"));
    assert!(name_matches("ode", "node"));
    assert!(name_matches("node", "node"));
    assert!(!name_matches("Node", "node"));
    assert!(!name_matches("nodes", "node"));
    assert!(!name_matches("x", ""));
}
