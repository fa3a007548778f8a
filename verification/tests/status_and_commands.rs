use homebrew_manager::brew::{
    job_finished,
    autoremove, candidate_paths, cleanup, doctor, find_brew_binary, get_status, info,
    info_command, install_homebrew, install_packages, installed_command, outdated_command,
    path_lookup_command, pin_packages, prefix_command, refresh_installed, refresh_outdated,
    run_brew, search, search_command, uninstall_packages, update, upgrade_all, upgrade_packages,
    version_command, BrewCommand, BrewStatus, Event,
};

fn strs(v: &[&str]) -> Vec<String> {
    v.iter().map(|s| s.to_string()).collect()
}

fn assert_cmd(c: &BrewCommand, program: &str, args: &[&str]) {
    assert_eq!(c.program, program);
    assert_eq!(c.args, strs(args));
    assert!(c.envs.is_empty());
}

#[test]
fn path_lookup_wins() {
    let r = find_brew_binary(Some("  /custom/bin/brew\n".to_string()), &vec![true, true, true]);
    assert_eq!(r.as_deref(), Some("/custom/bin/brew"));
}

#[test]
fn blank_lookup_falls_back_to_candidates_in_order() {
    let r = find_brew_binary(Some(" \n".to_string()), &vec![false, true, true]);
    assert_eq!(r.as_deref(), Some("/usr/local/bin/brew"));
    let r = find_brew_binary(None, &vec![true, true, true]);
    assert_eq!(r.as_deref(), Some("/opt/homebrew/bin/brew"));
    let r = find_brew_binary(None, &vec![false, false, true]);
    assert_eq!(r.as_deref(), Some("/home/linuxbrew/.linuxbrew/bin/brew"));
    assert_eq!(find_brew_binary(None, &vec![false, false, false]), None);
    assert_eq!(find_brew_binary(None, &vec![]), None);
}

#[test]
fn candidates_are_the_known_locations() {
    assert_eq!(
        candidate_paths(),
        strs(&["/opt/homebrew/bin/brew", "/usr/local/bin/brew", "/home/linuxbrew/.linuxbrew/bin/brew"])
    );
    assert_cmd(&path_lookup_command(), "sh", &["-c", "command -v brew"]);
}

#[test]
fn status_when_missing() {
    let s = get_status(None, Some("x".to_string()), Some("y".to_string()));
    assert!(!s.installed);
    assert_eq!(s.version, "");
    assert_eq!(s.prefix, "");
    assert_eq!(s.brew_path, None);
    let d = BrewStatus::default();
    assert!(!d.installed && d.brew_path.is_none());
}

#[test]
fn status_reads_first_version_line_and_trimmed_prefix() {
    let s = get_status(
        Some("/opt/homebrew/bin/brew".to_string()),
        Some("Homebrew 4.3.1\nHomebrew/homebrew-core (git revision 1)\n".to_string()),
        Some("  /opt/homebrew\n".to_string()),
    );
    assert!(s.installed);
    assert_eq!(s.version, "Homebrew 4.3.1");
    assert_eq!(s.prefix, "/opt/homebrew");
    assert_eq!(s.brew_path.as_deref(), Some("/opt/homebrew/bin/brew"));
    let s = get_status(Some("b".to_string()), None, None);
    assert!(s.installed);
    assert_eq!(s.version, "");
    assert_eq!(s.prefix, "");
}

#[test]
fn query_commands() {
    let p = "/b/brew".to_string();
    assert_cmd(&version_command(&p), "/b/brew", &["--version"]);
    assert_cmd(&prefix_command(&p), "/b/brew", &["--prefix"]);
    assert_cmd(&installed_command(&p, false), "/b/brew", &["list", "--formula", "--versions"]);
    assert_cmd(&installed_command(&p, true), "/b/brew", &["list", "--cask", "--versions"]);
    assert_cmd(&outdated_command(&p, false), "/b/brew", &["outdated", "--formula", "--verbose"]);
    assert_cmd(&outdated_command(&p, true), "/b/brew", &["outdated", "--cask", "--verbose"]);
    assert_cmd(&search_command(&p, "wget".to_string()), "/b/brew", &["search", "wget"]);
    assert_cmd(&info_command(&p, &"jq".to_string()), "/b/brew", &["info", "jq"]);
}

#[test]
fn streamed_commands() {
    let p = || "/b/brew".to_string();
    let names = || strs(&["a", "b"]);
    assert_cmd(&update(p()), "/b/brew", &["update"]);
    assert_cmd(&upgrade_all(p()), "/b/brew", &["upgrade"]);
    assert_cmd(&upgrade_packages(p(), names()), "/b/brew", &["upgrade", "a", "b"]);
    assert_cmd(&install_packages(p(), names(), false), "/b/brew", &["install", "a", "b"]);
    assert_cmd(&install_packages(p(), names(), true), "/b/brew", &["install", "--cask", "a", "b"]);
    assert_cmd(&uninstall_packages(p(), names(), false), "/b/brew", &["uninstall", "a", "b"]);
    assert_cmd(&uninstall_packages(p(), names(), true), "/b/brew", &["uninstall", "--cask", "a", "b"]);
    assert_cmd(&pin_packages(p(), names(), true), "/b/brew", &["pin", "a", "b"]);
    assert_cmd(&pin_packages(p(), names(), false), "/b/brew", &["unpin", "a", "b"]);
    assert_cmd(&cleanup(p()), "/b/brew", &["cleanup", "-s"]);
    assert_cmd(&autoremove(p()), "/b/brew", &["autoremove"]);
    assert_cmd(&doctor(p()), "/b/brew", &["doctor"]);
}

#[test]
fn installer_runs_noninteractively() {
    let c = install_homebrew();
    assert_eq!(c.program, "bash");
    assert_eq!(
        c.args,
        strs(&["-c", "curl -fsSL https://raw.githubusercontent.com/Homebrew/install/HEAD/install.sh | bash"])
    );
    assert_eq!(c.envs, vec![("NONINTERACTIVE".to_string(), "1".to_string())]);
}

#[test]
fn installed_events_formulae_then_casks() {
    let ev = refresh_installed(Some("wget 1.0\n".to_string()), Some("firefox 120\n".to_string()));
    assert_eq!(ev.len(), 2);
    match &ev[0] {
        Event::InstalledFormulae(p) => assert_eq!(p[0].name, "wget"),
        e => panic!("unexpected {e:?}"),
    }
    match &ev[1] {
        Event::InstalledCasks(p) => assert_eq!(p[0].version, "120"),
        e => panic!("unexpected {e:?}"),
    }
    let ev = refresh_installed(None, Some(String::new()));
    assert_eq!(ev.len(), 1);
    assert!(matches!(&ev[0], Event::InstalledCasks(p) if p.is_empty()));
    assert!(refresh_installed(None, None).is_empty());
}

#[test]
fn outdated_event_joins_formulae_and_casks() {
    let e = refresh_outdated(
        Some("git (1) < 2\n".to_string()),
        Some("firefox (120.0) != 121.0\n".to_string()),
    );
    match e {
        Event::Outdated(v) => {
            assert_eq!(v.len(), 2);
            assert_eq!(v[0].name, "git");
            assert!(!v[0].is_cask);
            assert_eq!(v[1].name, "firefox");
            assert!(v[1].is_cask);
        }
        e => panic!("unexpected {e:?}"),
    }
    assert!(matches!(refresh_outdated(None, None), Event::Outdated(v) if v.is_empty()));
}

#[test]
fn search_and_info_events() {
    match search(Some("==> Formulae\njq\n".to_string())) {
        Some(Event::SearchResults(r)) => assert_eq!(r, strs(&["jq"])),
        e => panic!("unexpected {e:?}"),
    }
    assert!(search(None).is_none());
    match info("jq".to_string(), Some("jq: stable 1.7".to_string())) {
        Event::Info(n, t) => {
            assert_eq!(n, "jq");
            assert_eq!(t, "jq: stable 1.7");
        }
        e => panic!("unexpected {e:?}"),
    }
    assert!(matches!(info("x".to_string(), None), Event::Info(_, t) if t.is_empty()));
}

#[test]
fn a_job_ends_once() {
    let end = |rs: Vec<(bool, Option<i32>)>| match job_finished(&rs) {
        Event::Finished { success, exit_code } => (success, exit_code),
        e => panic!("unexpected {e:?}"),
    };
    assert_eq!(end(vec![(true, Some(0))]), (true, Some(0)));
    assert_eq!(end(vec![(true, Some(0)), (true, Some(0))]), (true, Some(0)));
    assert_eq!(end(vec![(true, Some(0)), (false, Some(3)), (false, None)]), (false, Some(3)));
    assert_eq!(end(vec![(false, None), (true, Some(0))]), (false, None));
    assert_eq!(end(vec![]), (true, None));
}

#[test]
fn run_brew_passes_program_and_arguments_through() {
    let c = run_brew("/opt/homebrew/bin/brew", strs(&["info", "jq"]));
    assert_eq!(c.program, "/opt/homebrew/bin/brew");
    assert_eq!(c.args, strs(&["info", "jq"]));
    assert!(c.envs.is_empty());
}
