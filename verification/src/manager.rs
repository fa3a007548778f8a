//! The state of the Homebrew manager and the decisions it takes: what each
//! background event changes, and which work each request of the user
//! starts. The interface draws this state and carries out the returned
//! actions; it decides nothing itself.
use vstd::prelude::*;

use crate::brew::{
    autoremove, cleanup, command, doctor, homebrew_installer, install_homebrew, install_packages,
    opt_view, outdated_view, packages_view, pin_packages, strings_view, uninstall_packages, update,
    upgrade_all, upgrade_packages, verb_args, BrewCommand, BrewStatus, CommandView, Event,
    EventView, OutdatedPackage, OutdatedView, Package, PackageView, StatusView,
};
use crate::text::{
    bool_text, chars_of, contains_chars, contains_seq, decimal, push_bool, push_decimal, push_str,
    lowercase, string_from_chars, to_lowercase, trim, trim_chars,
};

verus! {

/// The page shown in the main panel.
#[derive(PartialEq, Eq, Structural, Clone, Copy, Debug)]
pub enum Tab {
    Status,
    Installed,
    Search,
    Updates,
    Maintenance,
}

/// Work that the interface carries out on behalf of the manager.
#[derive(Debug)]
pub enum Action {
    /// Look for brew and read its status; report it as `Event::Status`.
    RefreshStatus,
    /// List the installed formulae and casks of the brew at this path.
    RefreshInstalled(String),
    /// List the outdated packages of the brew at this path.
    RefreshOutdated(String),
    /// (brew path, query): search for packages.
    Search(String, String),
    /// (brew path, name): read the `brew info` text of a package.
    Info(String, String),
    /// Run the job made of these commands, one after the other, streaming
    /// their output as `Event::Log`, and report the end of the job once,
    /// after its last command, with the `Event::Finished` that
    /// `brew::job_finished` makes of the commands' outcomes. A job of no
    /// commands ends at once, with success and no exit code.
    Run(Vec<BrewCommand>),
}

pub enum ActionView {
    RefreshStatus,
    RefreshInstalled(Seq<char>),
    RefreshOutdated(Seq<char>),
    Search(Seq<char>, Seq<char>),
    Info(Seq<char>, Seq<char>),
    Run(Seq<CommandView>),
}

pub open spec fn commands_view(v: Seq<BrewCommand>) -> Seq<CommandView> {
    v.map_values(|c: BrewCommand| c@)
}

impl View for Action {
    type V = ActionView;

    open spec fn view(&self) -> ActionView {
        match self {
            Action::RefreshStatus => ActionView::RefreshStatus,
            Action::RefreshInstalled(p) => ActionView::RefreshInstalled(p@),
            Action::RefreshOutdated(p) => ActionView::RefreshOutdated(p@),
            Action::Search(p, q) => ActionView::Search(p@, q@),
            Action::Info(p, n) => ActionView::Info(p@, n@),
            Action::Run(c) => ActionView::Run(commands_view(c@)),
        }
    }
}

pub open spec fn actions_view(v: Seq<Action>) -> Seq<ActionView> {
    v.map_values(|a: Action| a@)
}

/// What the manager holds, as values.
#[verifier::ext_equal]
pub struct ManagerView {
    pub tab: Tab,
    pub status: StatusView,
    pub status_checked: bool,
    pub busy: bool,
    pub current_op: Option<Seq<char>>,
    pub installed_formulae: Seq<PackageView>,
    pub installed_casks: Seq<PackageView>,
    pub installed_filter: Seq<char>,
    pub selected_installed: Seq<Seq<char>>,
    pub search_query: Seq<char>,
    pub search_results: Seq<Seq<char>>,
    pub selected_search: Seq<Seq<char>>,
    pub install_as_cask: bool,
    pub outdated: Seq<OutdatedView>,
    pub selected_outdated: Seq<Seq<char>>,
    pub info_name: Option<Seq<char>>,
    pub info_text: Seq<char>,
    pub log: Seq<Seq<char>>,
    pub autoscroll_log: bool,
}

/// The state of the Homebrew manager.
pub struct HomebrewManagerApp {
    tab: Tab,
    status: BrewStatus,
    status_checked: bool,
    busy: bool,
    current_op: Option<String>,
    installed_formulae: Vec<Package>,
    installed_casks: Vec<Package>,
    installed_filter: String,
    selected_installed: Vec<String>,
    search_query: String,
    search_results: Vec<String>,
    selected_search: Vec<String>,
    install_as_cask: bool,
    outdated: Vec<OutdatedPackage>,
    selected_outdated: Vec<String>,
    info_name: Option<String>,
    info_text: String,
    log: Vec<String>,
    autoscroll_log: bool,
}

/// No name is selected twice.
pub open spec fn selection_ok(sel: Seq<Seq<char>>) -> bool {
    sel.no_duplicates()
}

/// The manager's state is consistent: each selection names a package at
/// most once.
pub open spec fn manager_ok(v: ManagerView) -> bool {
    &&& selection_ok(v.selected_installed)
    &&& selection_ok(v.selected_search)
    &&& selection_ok(v.selected_outdated)
}

impl HomebrewManagerApp {
    pub open spec fn wf(&self) -> bool {
        manager_ok(self@)
    }

    pub closed spec fn view(&self) -> ManagerView {
        ManagerView {
            tab: self.tab,
            status: self.status@,
            status_checked: self.status_checked,
            busy: self.busy,
            current_op: opt_view(self.current_op),
            installed_formulae: packages_view(self.installed_formulae@),
            installed_casks: packages_view(self.installed_casks@),
            installed_filter: self.installed_filter@,
            selected_installed: strings_view(self.selected_installed@),
            search_query: self.search_query@,
            search_results: strings_view(self.search_results@),
            selected_search: strings_view(self.selected_search@),
            install_as_cask: self.install_as_cask,
            outdated: outdated_view(self.outdated@),
            selected_outdated: strings_view(self.selected_outdated@),
            info_name: opt_view(self.info_name),
            info_text: self.info_text@,
            log: strings_view(self.log@),
            autoscroll_log: self.autoscroll_log,
        }
    }
}

// ---------------------------------------------------------------------
// Transitions
// ---------------------------------------------------------------------

/// The state in which the manager starts: the status page, nothing known
/// yet, the console scrolling along.
pub open spec fn initial() -> ManagerView {
    ManagerView {
        tab: Tab::Status,
        status: crate::brew::not_installed(),
        status_checked: false,
        busy: false,
        current_op: None,
        installed_formulae: seq![],
        installed_casks: seq![],
        installed_filter: seq![],
        selected_installed: seq![],
        search_query: seq![],
        search_results: seq![],
        selected_search: seq![],
        install_as_cask: false,
        outdated: seq![],
        selected_outdated: seq![],
        info_name: None,
        info_text: seq![],
        log: seq![],
        autoscroll_log: true,
    }
}

/// The console line that announces a job.
pub open spec fn job_line(label: Seq<char>) -> Seq<char> {
    "$ "@ + label
}

/// Starting the job `label`: the manager is busy with it, and the console
/// says so.
pub open spec fn started(v: ManagerView, label: Seq<char>) -> ManagerView {
    ManagerView { busy: true, current_op: Some(label), log: v.log.push(job_line(label)), ..v }
}

/// The console line that reports the end of the job `op`.
pub open spec fn summary_line(op: Seq<char>, success: bool, exit_code: Option<i32>) -> Seq<char> {
    match exit_code {
        Some(code) => "["@ + op + "] finished (exit "@ + decimal(code as int) + ", success="@
            + bool_text(success) + ")"@,
        None => "["@ + op + "] finished (success="@ + bool_text(success) + ")"@,
    }
}

/// What to read again after the job `op` succeeded, brew being at `path`
/// (if known): after installing Homebrew, its status; after a job that may
/// have changed the installed packages, the installed and the outdated
/// packages; after `brew update`, the outdated packages.
pub open spec fn refresh_after(op: Seq<char>, path: Option<Seq<char>>) -> Seq<ActionView> {
    if op == "Install Homebrew"@ {
        seq![ActionView::RefreshStatus]
    } else if path is Some && (op == "Install"@ || op == "Uninstall"@ || op == "Upgrade"@ || op
        == "Upgrade All"@ || op == "Cleanup"@ || op == "Autoremove"@) {
        seq![ActionView::RefreshInstalled(path->0), ActionView::RefreshOutdated(path->0)]
    } else if path is Some && op == "Update (brew update)"@ {
        seq![ActionView::RefreshOutdated(path->0)]
    } else {
        seq![]
    }
}

/// The name of the job that was running, or the empty name.
pub open spec fn op_name(v: ManagerView) -> Seq<char> {
    match v.current_op {
        Some(op) => op,
        None => seq![],
    }
}

/// The state after `e` arrives.
pub open spec fn after_event(v: ManagerView, e: EventView) -> ManagerView {
    match e {
        EventView::Log(line) => ManagerView { log: v.log.push(line), ..v },
        EventView::Finished { success, exit_code } => ManagerView {
            busy: false,
            current_op: None,
            log: v.log.push(summary_line(op_name(v), success, exit_code)),
            ..v
        },
        EventView::Status(s) => ManagerView { status_checked: true, status: s, ..v },
        EventView::InstalledFormulae(p) => ManagerView { installed_formulae: p, ..v },
        EventView::InstalledCasks(p) => ManagerView { installed_casks: p, ..v },
        EventView::Outdated(o) => ManagerView { outdated: o, ..v },
        EventView::SearchResults(r) => ManagerView { search_results: r, ..v },
        EventView::Info(n, t) => ManagerView { info_name: Some(n), info_text: t, ..v },
    }
}

/// The work that `e` starts: after a successful job, the lists it may have
/// changed are read again; once brew is found, its lists are read.
pub open spec fn event_actions(v: ManagerView, e: EventView) -> Seq<ActionView> {
    match e {
        EventView::Finished { success, .. } => if success {
            refresh_after(op_name(v), v.status.brew_path)
        } else {
            seq![]
        },
        EventView::Status(s) => if s.installed && s.brew_path is Some {
            seq![
                ActionView::RefreshInstalled(s.brew_path->0),
                ActionView::RefreshOutdated(s.brew_path->0),
            ]
        } else {
            seq![]
        },
        _ => seq![],
    }
}

// ---------------------------------------------------------------------
// Implementation
// ---------------------------------------------------------------------

fn owned(s: &str) -> (r: String)
    ensures
        r@ == s@,
{
    s.to_string()
}

fn clone_opt(o: &Option<String>) -> (r: Option<String>)
    ensures
        opt_view(r) == opt_view(*o),
{
    match o {
        Some(s) => Some(s.clone()),
        None => None,
    }
}

fn summary(op: &String, success: bool, exit_code: Option<i32>) -> (s: String)
    ensures
        s@ == summary_line(op@, success, exit_code),
{
    let mut v: Vec<char> = Vec::new();
    push_str(&mut v, "[");
    push_str(&mut v, op.as_str());
    match exit_code {
        Some(code) => {
            push_str(&mut v, "] finished (exit ");
            push_decimal(&mut v, code);
            push_str(&mut v, ", success=");
        },
        None => {
            push_str(&mut v, "] finished (success=");
        },
    }
    push_bool(&mut v, success);
    push_str(&mut v, ")");
    string_from_chars(&v)
}

impl HomebrewManagerApp {
    /// A new manager, and the work it starts with: looking for brew.
    pub fn new() -> (r: (HomebrewManagerApp, Vec<Action>))
        ensures
            r.0.wf(),
            r.0@ == initial(),
            actions_view(r.1@) == seq![ActionView::RefreshStatus],
    {
        let app = HomebrewManagerApp {
            tab: Tab::Status,
            status: BrewStatus::default(),
            status_checked: false,
            busy: false,
            current_op: None,
            installed_formulae: Vec::new(),
            installed_casks: Vec::new(),
            installed_filter: String::new(),
            selected_installed: Vec::new(),
            search_query: String::new(),
            search_results: Vec::new(),
            selected_search: Vec::new(),
            install_as_cask: false,
            outdated: Vec::new(),
            selected_outdated: Vec::new(),
            info_name: None,
            info_text: String::new(),
            log: Vec::new(),
            autoscroll_log: true,
        };
        assert(app@ =~= initial());
        let actions = vec![Action::RefreshStatus];
        assert(actions_view(actions@) =~= seq![ActionView::RefreshStatus]);
        (app, actions)
    }

    /// Where brew is, once it has been found.
    pub fn brew_path(&self) -> (r: Option<String>)
        ensures
            opt_view(r) == self@.status.brew_path,
    {
        clone_opt(&self.status.brew_path)
    }

    /// Start the job `label`, made of the commands `job`: the manager is
    /// busy until a command of it reports its end.
    pub fn start_job(&mut self, label: &str, job: Vec<BrewCommand>) -> (a: Action)
        requires
            old(self).wf(),
        ensures
            final(self).wf(),
            final(self)@ == started(old(self)@, label@),
            a@ == ActionView::Run(commands_view(job@)),
    {
        self.busy = true;
        self.current_op = Some(owned(label));
        let mut line: Vec<char> = Vec::new();
        push_str(&mut line, "$ ");
        push_str(&mut line, label);
        self.log.push(string_from_chars(&line));
        assert(self@ =~= started(old(self)@, label@));
        Action::Run(job)
    }

    /// Take in an event from background work, and return the work that it
    /// starts.
    pub fn handle_event(&mut self, event: Event) -> (r: Vec<Action>)
        requires
            old(self).wf(),
        ensures
            final(self).wf(),
            final(self)@ == after_event(old(self)@, event@),
            actions_view(r@) == event_actions(old(self)@, event@),
    {
        let ghost e = event@;
        let mut r: Vec<Action> = Vec::new();
        match event {
            Event::Log(line) => {
                self.log.push(line);
            },
            Event::Finished { success, exit_code } => {
                self.busy = false;
                let op = match self.current_op.take() {
                    Some(o) => o,
                    None => String::new(),
                };
                let line = summary(&op, success, exit_code);
                self.log.push(line);
                if success {
                    if op == owned("Install Homebrew") {
                        r.push(Action::RefreshStatus);
                    } else if let Some(path) = clone_opt(&self.status.brew_path) {
                        if op == owned("Install") || op == owned("Uninstall") || op == owned(
                            "Upgrade",
                        ) || op == owned("Upgrade All") || op == owned("Cleanup") || op == owned(
                            "Autoremove",
                        ) {
                            r.push(Action::RefreshInstalled(path.clone()));
                            r.push(Action::RefreshOutdated(path));
                        } else if op == owned("Update (brew update)") {
                            r.push(Action::RefreshOutdated(path));
                        }
                    }
                }
            },
            Event::Status(status) => {
                self.status_checked = true;
                let now_installed = status.installed;
                self.status = status;
                if now_installed {
                    if let Some(path) = clone_opt(&self.status.brew_path) {
                        r.push(Action::RefreshInstalled(path.clone()));
                        r.push(Action::RefreshOutdated(path));
                    }
                }
            },
            Event::InstalledFormulae(pkgs) => {
                self.installed_formulae = pkgs;
            },
            Event::InstalledCasks(pkgs) => {
                self.installed_casks = pkgs;
            },
            Event::Outdated(list) => {
                self.outdated = list;
            },
            Event::SearchResults(results) => {
                self.search_results = results;
            },
            Event::Info(name, text) => {
                self.info_name = Some(name);
                self.info_text = text;
            },
        }
        assert(self@ =~= after_event(old(self)@, e));
        assert(actions_view(r@) =~= event_actions(old(self)@, e));
        r
    }
}

// ---------------------------------------------------------------------
// Requests of the user
// ---------------------------------------------------------------------

/// A state change that starts no work.
pub open spec fn unchanged(v: ManagerView) -> (ManagerView, Seq<ActionView>) {
    (v, seq![])
}

/// Starting the job `label` made of the commands `cmds`.
pub open spec fn run_job(v: ManagerView, label: Seq<char>, cmds: Seq<CommandView>) -> (
    ManagerView,
    Seq<ActionView>,
) {
    (started(v, label), seq![ActionView::Run(cmds)])
}

/// `sel` with `name` added (when `checked`) or taken out.
pub open spec fn selected_after(sel: Seq<Seq<char>>, name: Seq<char>, checked: bool) -> Seq<
    Seq<char>,
> {
    if checked {
        if sel.contains(name) {
            sel
        } else {
            sel.push(name)
        }
    } else {
        without(sel, name)
    }
}

/// `sel` without `name`.
pub open spec fn without(sel: Seq<Seq<char>>, name: Seq<char>) -> Seq<Seq<char>>
    decreases sel.len(),
{
    if sel.len() == 0 {
        seq![]
    } else if sel.last() == name {
        without(sel.drop_last(), name)
    } else {
        without(sel.drop_last(), name).push(sel.last())
    }
}

/// The names of `sel` that occur in `pool`, in the order of `sel`.
pub open spec fn kept(sel: Seq<Seq<char>>, pool: Seq<Seq<char>>) -> Seq<Seq<char>>
    decreases sel.len(),
{
    if sel.len() == 0 {
        seq![]
    } else if pool.contains(sel.last()) {
        kept(sel.drop_last(), pool).push(sel.last())
    } else {
        kept(sel.drop_last(), pool)
    }
}

pub open spec fn names_of(pkgs: Seq<PackageView>) -> Seq<Seq<char>> {
    pkgs.map_values(|p: PackageView| p.name)
}

/// Checking or unchecking `name` in the list of installed packages.
pub open spec fn on_select_installed(v: ManagerView, name: Seq<char>, checked: bool) -> ManagerView {
    ManagerView {
        selected_installed: selected_after(v.selected_installed, name, checked),
        ..v
    }
}

/// Checking or unchecking `name` in the search results.
pub open spec fn on_select_search(v: ManagerView, name: Seq<char>, checked: bool) -> ManagerView {
    ManagerView { selected_search: selected_after(v.selected_search, name, checked), ..v }
}

/// Checking or unchecking `name` in the list of outdated packages.
pub open spec fn on_select_outdated(v: ManagerView, name: Seq<char>, checked: bool) -> ManagerView {
    ManagerView { selected_outdated: selected_after(v.selected_outdated, name, checked), ..v }
}

/// "Re-check": look for brew again, unless a job is running.
pub open spec fn on_recheck(v: ManagerView) -> (ManagerView, Seq<ActionView>) {
    if !v.busy {
        (ManagerView { status_checked: false, ..v }, seq![ActionView::RefreshStatus])
    } else {
        unchanged(v)
    }
}

/// "Install Homebrew": run the official installer, unless a job is running.
pub open spec fn on_install_homebrew(v: ManagerView) -> (ManagerView, Seq<ActionView>) {
    if !v.busy {
        run_job(v, "Install Homebrew"@, seq![homebrew_installer()])
    } else {
        unchanged(v)
    }
}

/// The uninstall commands for the selected packages: formulae and casks
/// apart, each only when there is one to remove.
pub open spec fn uninstall_commands(v: ManagerView, path: Seq<char>) -> Seq<CommandView> {
    let f = kept(v.selected_installed, names_of(v.installed_formulae));
    let c = kept(v.selected_installed, names_of(v.installed_casks));
    (if f.len() > 0 {
        seq![command(path, verb_args("uninstall"@, false) + f)]
    } else {
        seq![]
    }) + (if c.len() > 0 {
        seq![command(path, verb_args("uninstall"@, true) + c)]
    } else {
        seq![]
    })
}

/// "Uninstall selected": when brew is there, no job runs and something is
/// selected, clear the selection and start the "Uninstall" job, which
/// removes the selected packages that are installed. When none of them is
/// installed any more the job holds no command, and it ends at once.
pub open spec fn on_uninstall_selected(v: ManagerView) -> (ManagerView, Seq<ActionView>) {
    if !v.busy && v.selected_installed.len() > 0 && v.status.brew_path is Some {
        run_job(
            ManagerView { selected_installed: seq![], ..v },
            "Uninstall"@,
            uninstall_commands(v, v.status.brew_path->0),
        )
    } else {
        unchanged(v)
    }
}

/// "Upgrade selected" on the installed page.
pub open spec fn on_upgrade_selected_installed(v: ManagerView) -> (ManagerView, Seq<ActionView>) {
    if !v.busy && v.selected_installed.len() > 0 && v.status.brew_path is Some {
        run_job(
            ManagerView { selected_installed: seq![], ..v },
            "Upgrade"@,
            seq![command(v.status.brew_path->0, seq!["upgrade"@] + v.selected_installed)],
        )
    } else {
        unchanged(v)
    }
}

/// "Upgrade selected" on the updates page.
pub open spec fn on_upgrade_selected_outdated(v: ManagerView) -> (ManagerView, Seq<ActionView>) {
    if !v.busy && v.selected_outdated.len() > 0 && v.status.brew_path is Some {
        run_job(
            ManagerView { selected_outdated: seq![], ..v },
            "Upgrade"@,
            seq![command(v.status.brew_path->0, seq!["upgrade"@] + v.selected_outdated)],
        )
    } else {
        unchanged(v)
    }
}

/// "Install selected" on the search page, as formulae or as casks.
pub open spec fn on_install_selected(v: ManagerView) -> (ManagerView, Seq<ActionView>) {
    if !v.busy && v.selected_search.len() > 0 && v.status.brew_path is Some {
        run_job(
            ManagerView { selected_search: seq![], ..v },
            "Install"@,
            seq![
                command(
                    v.status.brew_path->0,
                    verb_args("install"@, v.install_as_cask) + v.selected_search,
                ),
            ],
        )
    } else {
        unchanged(v)
    }
}

/// "install" beside one search result.
pub open spec fn on_install_one(v: ManagerView, name: Seq<char>) -> (ManagerView, Seq<ActionView>) {
    if !v.busy && v.status.brew_path is Some {
        run_job(
            v,
            "Install"@,
            seq![
                command(
                    v.status.brew_path->0,
                    verb_args("install"@, v.install_as_cask) + seq![name],
                ),
            ],
        )
    } else {
        unchanged(v)
    }
}

/// "Upgrade All", offered while some package is outdated.
pub open spec fn on_upgrade_all(v: ManagerView) -> (ManagerView, Seq<ActionView>) {
    if !v.busy && v.outdated.len() > 0 && v.status.brew_path is Some {
        run_job(v, "Upgrade All"@, seq![command(v.status.brew_path->0, seq!["upgrade"@])])
    } else {
        unchanged(v)
    }
}

/// "pin" or "unpin" beside an outdated package; offered while a job runs
/// too.
pub open spec fn on_pin(v: ManagerView, name: Seq<char>, pin: bool) -> (
    ManagerView,
    Seq<ActionView>,
) {
    if v.status.brew_path is Some {
        run_job(
            v,
            if pin {
                "Pin"@
            } else {
                "Unpin"@
            },
            seq![
                command(
                    v.status.brew_path->0,
                    seq![if pin { "pin"@ } else { "unpin"@ }, name],
                ),
            ],
        )
    } else {
        unchanged(v)
    }
}

/// The maintenance tasks, each one brew command.
#[derive(PartialEq, Eq, Structural, Clone, Copy, Debug)]
pub enum Maintenance {
    /// `brew cleanup -s`
    Cleanup,
    /// `brew autoremove`
    Autoremove,
    /// `brew doctor`
    Doctor,
    /// `brew update`
    Update,
}

pub open spec fn maintenance_label(t: Maintenance) -> Seq<char> {
    match t {
        Maintenance::Cleanup => "Cleanup"@,
        Maintenance::Autoremove => "Autoremove"@,
        Maintenance::Doctor => "Doctor"@,
        Maintenance::Update => "Update (brew update)"@,
    }
}

pub open spec fn maintenance_args(t: Maintenance) -> Seq<Seq<char>> {
    match t {
        Maintenance::Cleanup => seq!["cleanup"@, "-s"@],
        Maintenance::Autoremove => seq!["autoremove"@],
        Maintenance::Doctor => seq!["doctor"@],
        Maintenance::Update => seq!["update"@],
    }
}

/// A maintenance button, unless a job is running.
pub open spec fn on_maintenance(v: ManagerView, t: Maintenance) -> (
    ManagerView,
    Seq<ActionView>,
) {
    if !v.busy && v.status.brew_path is Some {
        run_job(
            v,
            maintenance_label(t),
            seq![command(v.status.brew_path->0, maintenance_args(t))],
        )
    } else {
        unchanged(v)
    }
}

/// "Refresh" on the installed page, unless a job is running.
pub open spec fn on_refresh_installed(v: ManagerView) -> Seq<ActionView> {
    if !v.busy && v.status.brew_path is Some {
        seq![ActionView::RefreshInstalled(v.status.brew_path->0)]
    } else {
        seq![]
    }
}

/// "Refresh outdated list", unless a job is running.
pub open spec fn on_refresh_outdated(v: ManagerView) -> Seq<ActionView> {
    if !v.busy && v.status.brew_path is Some {
        seq![ActionView::RefreshOutdated(v.status.brew_path->0)]
    } else {
        seq![]
    }
}

/// "Search": search for the trimmed query when it is not blank.
pub open spec fn on_search(v: ManagerView) -> Seq<ActionView> {
    if v.status.brew_path is Some && trim(v.search_query).len() > 0 {
        seq![ActionView::Search(v.status.brew_path->0, trim(v.search_query))]
    } else {
        seq![]
    }
}

/// "info" beside a package.
pub open spec fn on_info(v: ManagerView, name: Seq<char>) -> Seq<ActionView> {
    if v.status.brew_path is Some {
        seq![ActionView::Info(v.status.brew_path->0, name)]
    } else {
        seq![]
    }
}

fn contains_string(v: &Vec<String>, s: &String) -> (b: bool)
    ensures
        b == strings_view(v@).contains(s@),
{
    let ghost sv = strings_view(v@);
    let mut i: usize = 0;
    while i < v.len()
        invariant
            i <= v.len(),
            sv == strings_view(v@),
            forall|k: int| 0 <= k < i ==> sv[k] != s@,
        decreases v.len() - i,
    {
        if v[i] == *s {
            assert(sv[i as int] == s@);
            return true;
        }
        i += 1;
    }
    false
}

fn has_package_named(pkgs: &Vec<Package>, s: &String) -> (b: bool)
    ensures
        b == names_of(packages_view(pkgs@)).contains(s@),
{
    let ghost nv = names_of(packages_view(pkgs@));
    let mut i: usize = 0;
    while i < pkgs.len()
        invariant
            i <= pkgs.len(),
            nv == names_of(packages_view(pkgs@)),
            forall|k: int| 0 <= k < i ==> nv[k] != s@,
        decreases pkgs.len() - i,
    {
        if pkgs[i].name == *s {
            assert(nv[i as int] == s@);
            return true;
        }
        i += 1;
    }
    false
}

fn clone_strings(v: &Vec<String>) -> (r: Vec<String>)
    ensures
        strings_view(r@) == strings_view(v@),
{
    let mut r: Vec<String> = Vec::new();
    let mut i: usize = 0;
    while i < v.len()
        invariant
            i <= v.len(),
            strings_view(r@) == strings_view(v@).take(i as int),
        decreases v.len() - i,
    {
        let ghost before = r@;
        let c = v[i].clone();
        assert(c@ == v@[i as int]@);
        r.push(c);
        assert(strings_view(r@) =~= strings_view(before).push(c@));
        assert(strings_view(v@).take(i + 1) =~= strings_view(v@).take(i as int).push(
            v@[i as int]@,
        ));
        i += 1;
    }
    assert(strings_view(v@).take(v.len() as int) =~= strings_view(v@));
    r
}

/// `sel` with `name` checked or unchecked.
fn select(sel: &Vec<String>, name: &String, checked: bool) -> (r: Vec<String>)
    requires
        selection_ok(strings_view(sel@)),
    ensures
        strings_view(r@) == selected_after(strings_view(sel@), name@, checked),
        selection_ok(strings_view(r@)),
{
    let ghost sv = strings_view(sel@);
    if checked {
        let mut r = clone_strings(sel);
        if !contains_string(sel, name) {
            r.push(name.clone());
            assert(strings_view(r@) =~= sv.push(name@));
        }
        return r;
    }
    let mut r: Vec<String> = Vec::new();
    let mut i: usize = 0;
    while i < sel.len()
        invariant
            i <= sel.len(),
            sv == strings_view(sel@),
            sv.no_duplicates(),
            strings_view(r@) == without(sv.take(i as int), name@),
            strings_view(r@).no_duplicates(),
            forall|x: Seq<char>| strings_view(r@).contains(x) ==> sv.take(i as int).contains(x),
        decreases sel.len() - i,
    {
        let ghost before = strings_view(r@);
        assert(sv.take(i + 1).drop_last() =~= sv.take(i as int));
        assert(sv.take(i + 1).last() == sv[i as int]);
        if sel[i] != *name {
            r.push(sel[i].clone());
            assert(strings_view(r@) =~= before.push(sv[i as int]));
            assert forall|x: Seq<char>| strings_view(r@).contains(x) implies sv.take(
                i + 1,
            ).contains(x) by {
                if x != sv[i as int] {
                    assert(before.contains(x));
                    let k = choose|k: int| 0 <= k < i && sv.take(i as int)[k] == x;
                    assert(sv.take(i + 1)[k] == x);
                } else {
                    assert(sv.take(i + 1)[i as int] == x);
                }
            }
            proof {
                if before.contains(sv[i as int]) {
                    let k = choose|k: int| 0 <= k < i && sv.take(i as int)[k] == sv[i as int];
                    assert(sv[k] == sv[i as int]);
                }
            }
        } else {
            assert forall|x: Seq<char>| strings_view(r@).contains(x) implies sv.take(
                i + 1,
            ).contains(x) by {
                let k = choose|k: int| 0 <= k < i && sv.take(i as int)[k] == x;
                assert(sv.take(i + 1)[k] == x);
            }
        }
        i += 1;
    }
    assert(sv.take(sel.len() as int) =~= sv);
    r
}

/// The names of `sel` that name one of `pkgs`.
fn kept_names(sel: &Vec<String>, pkgs: &Vec<Package>) -> (r: Vec<String>)
    ensures
        strings_view(r@) == kept(strings_view(sel@), names_of(packages_view(pkgs@))),
{
    let ghost sv = strings_view(sel@);
    let ghost pool = names_of(packages_view(pkgs@));
    let mut r: Vec<String> = Vec::new();
    let mut i: usize = 0;
    while i < sel.len()
        invariant
            i <= sel.len(),
            sv == strings_view(sel@),
            pool == names_of(packages_view(pkgs@)),
            strings_view(r@) == kept(sv.take(i as int), pool),
        decreases sel.len() - i,
    {
        let ghost before = strings_view(r@);
        assert(sv.take(i + 1).drop_last() =~= sv.take(i as int));
        assert(sv.take(i + 1).last() == sv[i as int]);
        if has_package_named(pkgs, &sel[i]) {
            r.push(sel[i].clone());
            assert(strings_view(r@) =~= before.push(sv[i as int]));
        }
        i += 1;
    }
    assert(sv.take(sel.len() as int) =~= sv);
    r
}

impl HomebrewManagerApp {
    /// Check or uncheck `name` in the list of installed packages.
    pub fn select_installed(&mut self, name: &String, checked: bool)
        requires
            old(self).wf(),
        ensures
            final(self).wf(),
            final(self)@ == on_select_installed(old(self)@, name@, checked),
    {
        self.selected_installed = select(&self.selected_installed, name, checked);
        assert(self@ =~= on_select_installed(old(self)@, name@, checked));
    }

    /// Check or uncheck `name` in the search results.
    pub fn select_search(&mut self, name: &String, checked: bool)
        requires
            old(self).wf(),
        ensures
            final(self).wf(),
            final(self)@ == on_select_search(old(self)@, name@, checked),
    {
        self.selected_search = select(&self.selected_search, name, checked);
        assert(self@ =~= on_select_search(old(self)@, name@, checked));
    }

    /// Check or uncheck `name` in the list of outdated packages.
    pub fn select_outdated(&mut self, name: &String, checked: bool)
        requires
            old(self).wf(),
        ensures
            final(self).wf(),
            final(self)@ == on_select_outdated(old(self)@, name@, checked),
    {
        self.selected_outdated = select(&self.selected_outdated, name, checked);
        assert(self@ =~= on_select_outdated(old(self)@, name@, checked));
    }

    /// "Re-check".
    pub fn recheck_status(&mut self) -> (r: Vec<Action>)
        requires
            old(self).wf(),
        ensures
            final(self).wf(),
            (final(self)@, actions_view(r@)) == on_recheck(old(self)@),
    {
        if self.busy {
            return Vec::new();
        }
        self.status_checked = false;
        let r = vec![Action::RefreshStatus];
        assert(self@ =~= on_recheck(old(self)@).0);
        assert(actions_view(r@) =~= on_recheck(old(self)@).1);
        r
    }

    fn start_one(&mut self, label: &str, cmd: BrewCommand) -> (r: Vec<Action>)
        requires
            old(self).wf(),
        ensures
            final(self).wf(),
            (final(self)@, actions_view(r@)) == run_job(old(self)@, label@, seq![cmd@]),
    {
        let job = vec![cmd];
        assert(commands_view(job@) =~= seq![cmd@]);
        let a = self.start_job(label, job);
        let r = vec![a];
        assert(actions_view(r@) =~= seq![ActionView::Run(seq![cmd@])]);
        r
    }

    /// "Install Homebrew".
    pub fn request_install_homebrew(&mut self) -> (r: Vec<Action>)
        requires
            old(self).wf(),
        ensures
            final(self).wf(),
            (final(self)@, actions_view(r@)) == on_install_homebrew(old(self)@),
    {
        if self.busy {
            return Vec::new();
        }
        self.start_one("Install Homebrew", install_homebrew())
    }

    /// "Uninstall selected".
    pub fn uninstall_selected(&mut self) -> (r: Vec<Action>)
        requires
            old(self).wf(),
        ensures
            final(self).wf(),
            (final(self)@, actions_view(r@)) == on_uninstall_selected(old(self)@),
    {
        if self.busy || self.selected_installed.len() == 0 {
            return Vec::new();
        }
        let path = match clone_opt(&self.status.brew_path) {
            Some(p) => p,
            None => return Vec::new(),
        };
        let ghost v = self@;
        let formulae = kept_names(&self.selected_installed, &self.installed_formulae);
        let casks = kept_names(&self.selected_installed, &self.installed_casks);
        self.selected_installed = Vec::new();
        let mut job: Vec<BrewCommand> = Vec::new();
        if formulae.len() > 0 {
            job.push(uninstall_packages(path.clone(), formulae, false));
        }
        if casks.len() > 0 {
            job.push(uninstall_packages(path, casks, true));
        }
        assert(commands_view(job@) =~= uninstall_commands(v, v.status.brew_path->0));
        let a = self.start_job("Uninstall", job);
        let r = vec![a];
        assert(self@ =~= on_uninstall_selected(v).0);
        assert(actions_view(r@) =~= on_uninstall_selected(v).1);
        r
    }

    /// "Upgrade selected" on the installed page.
    pub fn upgrade_selected_installed(&mut self) -> (r: Vec<Action>)
        requires
            old(self).wf(),
        ensures
            final(self).wf(),
            (final(self)@, actions_view(r@)) == on_upgrade_selected_installed(old(self)@),
    {
        if self.busy || self.selected_installed.len() == 0 {
            return Vec::new();
        }
        let path = match clone_opt(&self.status.brew_path) {
            Some(p) => p,
            None => return Vec::new(),
        };
        let ghost v = self@;
        let names = clone_strings(&self.selected_installed);
        self.selected_installed = Vec::new();
        let r = self.start_one("Upgrade", upgrade_packages(path, names));
        assert(self@ =~= on_upgrade_selected_installed(v).0);
        r
    }

    /// "Upgrade selected" on the updates page.
    pub fn upgrade_selected_outdated(&mut self) -> (r: Vec<Action>)
        requires
            old(self).wf(),
        ensures
            final(self).wf(),
            (final(self)@, actions_view(r@)) == on_upgrade_selected_outdated(old(self)@),
    {
        if self.busy || self.selected_outdated.len() == 0 {
            return Vec::new();
        }
        let path = match clone_opt(&self.status.brew_path) {
            Some(p) => p,
            None => return Vec::new(),
        };
        let ghost v = self@;
        let names = clone_strings(&self.selected_outdated);
        self.selected_outdated = Vec::new();
        let r = self.start_one("Upgrade", upgrade_packages(path, names));
        assert(self@ =~= on_upgrade_selected_outdated(v).0);
        r
    }

    /// "Install selected" on the search page.
    pub fn install_selected(&mut self) -> (r: Vec<Action>)
        requires
            old(self).wf(),
        ensures
            final(self).wf(),
            (final(self)@, actions_view(r@)) == on_install_selected(old(self)@),
    {
        if self.busy || self.selected_search.len() == 0 {
            return Vec::new();
        }
        let path = match clone_opt(&self.status.brew_path) {
            Some(p) => p,
            None => return Vec::new(),
        };
        let ghost v = self@;
        let names = clone_strings(&self.selected_search);
        self.selected_search = Vec::new();
        let cask = self.install_as_cask;
        let r = self.start_one("Install", install_packages(path, names, cask));
        assert(self@ =~= on_install_selected(v).0);
        r
    }

    /// "install" beside the search result `name`.
    pub fn install_one(&mut self, name: &String) -> (r: Vec<Action>)
        requires
            old(self).wf(),
        ensures
            final(self).wf(),
            (final(self)@, actions_view(r@)) == on_install_one(old(self)@, name@),
    {
        if self.busy {
            return Vec::new();
        }
        let path = match clone_opt(&self.status.brew_path) {
            Some(p) => p,
            None => return Vec::new(),
        };
        let names = vec![name.clone()];
        assert(strings_view(names@) =~= seq![name@]);
        let cask = self.install_as_cask;
        self.start_one("Install", install_packages(path, names, cask))
    }

    /// "Upgrade All".
    pub fn upgrade_everything(&mut self) -> (r: Vec<Action>)
        requires
            old(self).wf(),
        ensures
            final(self).wf(),
            (final(self)@, actions_view(r@)) == on_upgrade_all(old(self)@),
    {
        if self.busy || self.outdated.len() == 0 {
            return Vec::new();
        }
        let path = match clone_opt(&self.status.brew_path) {
            Some(p) => p,
            None => return Vec::new(),
        };
        self.start_one("Upgrade All", upgrade_all(path))
    }

    /// "pin" (or "unpin") beside the outdated package `name`.
    pub fn set_pinned(&mut self, name: &String, pin: bool) -> (r: Vec<Action>)
        requires
            old(self).wf(),
        ensures
            final(self).wf(),
            (final(self)@, actions_view(r@)) == on_pin(old(self)@, name@, pin),
    {
        let path = match clone_opt(&self.status.brew_path) {
            Some(p) => p,
            None => return Vec::new(),
        };
        let names = vec![name.clone()];
        let cmd = pin_packages(path, names, pin);
        assert(cmd@.args =~= seq![if pin { "pin"@ } else { "unpin"@ }, name@]);
        if pin {
            self.start_one("Pin", cmd)
        } else {
            self.start_one("Unpin", cmd)
        }
    }

    /// A maintenance button.
    pub fn run_maintenance(&mut self, task: Maintenance) -> (r: Vec<Action>)
        requires
            old(self).wf(),
        ensures
            final(self).wf(),
            (final(self)@, actions_view(r@)) == on_maintenance(old(self)@, task),
    {
        if self.busy {
            return Vec::new();
        }
        let path = match clone_opt(&self.status.brew_path) {
            Some(p) => p,
            None => return Vec::new(),
        };
        match task {
            Maintenance::Cleanup => self.start_one("Cleanup", cleanup(path)),
            Maintenance::Autoremove => self.start_one("Autoremove", autoremove(path)),
            Maintenance::Doctor => self.start_one("Doctor", doctor(path)),
            Maintenance::Update => self.start_one("Update (brew update)", update(path)),
        }
    }

    /// "Refresh" on the installed page.
    pub fn request_installed_list(&self) -> (r: Vec<Action>)
        ensures
            actions_view(r@) == on_refresh_installed(self@),
    {
        if self.busy {
            return Vec::new();
        }
        match clone_opt(&self.status.brew_path) {
            Some(p) => {
                let r = vec![Action::RefreshInstalled(p)];
                assert(actions_view(r@) =~= on_refresh_installed(self@));
                r
            },
            None => Vec::new(),
        }
    }

    /// "Refresh outdated list".
    pub fn request_outdated_list(&self) -> (r: Vec<Action>)
        ensures
            actions_view(r@) == on_refresh_outdated(self@),
    {
        if self.busy {
            return Vec::new();
        }
        match clone_opt(&self.status.brew_path) {
            Some(p) => {
                let r = vec![Action::RefreshOutdated(p)];
                assert(actions_view(r@) =~= on_refresh_outdated(self@));
                r
            },
            None => Vec::new(),
        }
    }

    /// "Search" (or Enter in the query field).
    pub fn request_search(&self) -> (r: Vec<Action>)
        ensures
            actions_view(r@) == on_search(self@),
    {
        let path = match clone_opt(&self.status.brew_path) {
            Some(p) => p,
            None => return Vec::new(),
        };
        let q = chars_of(self.search_query.as_str());
        let t = trim_chars(&q);
        if t.len() == 0 {
            return Vec::new();
        }
        let r = vec![Action::Search(path, string_from_chars(&t))];
        assert(actions_view(r@) =~= on_search(self@));
        r
    }

    /// "info" beside the package `name`.
    pub fn request_info(&self, name: &String) -> (r: Vec<Action>)
        ensures
            actions_view(r@) == on_info(self@, name@),
    {
        match clone_opt(&self.status.brew_path) {
            Some(p) => {
                let r = vec![Action::Info(p, name.clone())];
                assert(actions_view(r@) =~= on_info(self@, name@));
                r
            },
            None => Vec::new(),
        }
    }
}

// ---------------------------------------------------------------------
// What the interface shows
// ---------------------------------------------------------------------

/// The installed package named `name` is shown under the filter text
/// `filter`: the filter is empty, or the name contains it, both compared
/// in lowercase.
pub open spec fn shown(filter: Seq<char>, name: Seq<char>) -> bool {
    matches_filter(lowercase(filter), lowercase(name))
}

/// Whether a name, in lowercase, passes a filter text, in lowercase: an
/// empty filter passes every name; another passes the names that hold it.
pub open spec fn matches_filter(lower_filter: Seq<char>, lower_name: Seq<char>) -> bool {
    lower_filter.len() == 0 || contains_seq(lower_name, lower_filter)
}

/// Whether the lowercase name `lower_name` passes the lowercase filter
/// text `lower_filter`.
pub fn name_matches(lower_filter: &str, lower_name: &str) -> (b: bool)
    ensures
        b == matches_filter(lower_filter@, lower_name@),
{
    let f = chars_of(lower_filter);
    if f.len() == 0 {
        return true;
    }
    let n = chars_of(lower_name);
    contains_chars(&n, &f)
}

/// The packages of `pkgs` shown under the filter text `filter`, in order.
pub open spec fn visible(pkgs: Seq<PackageView>, filter: Seq<char>) -> Seq<PackageView>
    decreases pkgs.len(),
{
    if pkgs.len() == 0 {
        seq![]
    } else if shown(filter, pkgs.last().name) {
        visible(pkgs.drop_last(), filter).push(pkgs.last())
    } else {
        visible(pkgs.drop_last(), filter)
    }
}

fn clone_package(p: &Package) -> (r: Package)
    ensures
        r@ == p@,
{
    Package { name: p.name.clone(), version: p.version.clone() }
}

/// The packages of `pkgs` whose name the lowercase filter `lower`
/// matches.
fn visible_packages(pkgs: &Vec<Package>, filter: &String, lower: &str) -> (r: Vec<Package>)
    requires
        lower@ == lowercase(filter@),
    ensures
        packages_view(r@) == visible(packages_view(pkgs@), filter@),
{
    let ghost pv = packages_view(pkgs@);
    let mut r: Vec<Package> = Vec::new();
    let mut i: usize = 0;
    while i < pkgs.len()
        invariant
            i <= pkgs.len(),
            pv == packages_view(pkgs@),
            lower@ == lowercase(filter@),
            packages_view(r@) == visible(pv.take(i as int), filter@),
        decreases pkgs.len() - i,
    {
        let ghost before = packages_view(r@);
        assert(pv.take(i + 1).drop_last() =~= pv.take(i as int));
        assert(pv.take(i + 1).last() == pv[i as int]);
        let name_lower = to_lowercase(pkgs[i].name.as_str());
        if name_matches(lower, name_lower.as_str()) {
            let p = clone_package(&pkgs[i]);
            r.push(p);
            assert(packages_view(r@) =~= before.push(pv[i as int]));
        }
        i += 1;
    }
    assert(pv.take(pkgs.len() as int) =~= pv);
    r
}

impl HomebrewManagerApp {
    /// The installed formulae and casks that the filter text lets through.
    pub fn installed_rows(&self) -> (r: (Vec<Package>, Vec<Package>))
        ensures
            packages_view(r.0@) == visible(self@.installed_formulae, self@.installed_filter),
            packages_view(r.1@) == visible(self@.installed_casks, self@.installed_filter),
    {
        let lower = to_lowercase(self.installed_filter.as_str());
        (
            visible_packages(&self.installed_formulae, &self.installed_filter, lower.as_str()),
            visible_packages(&self.installed_casks, &self.installed_filter, lower.as_str()),
        )
    }

    /// The page shown.
    pub fn tab(&self) -> (t: Tab)
        ensures
            t == self@.tab,
    {
        self.tab
    }

    /// Show the page `t`.
    pub fn set_tab(&mut self, t: Tab)
        requires
            old(self).wf(),
        ensures
            final(self).wf(),
            final(self)@ == (ManagerView { tab: t, ..old(self)@ }),
    {
        self.tab = t;
        assert(self@ =~= ManagerView { tab: t, ..old(self)@ });
    }

    /// What is known of brew.
    pub fn status(&self) -> (s: &BrewStatus)
        ensures
            s@ == self@.status,
    {
        &self.status
    }

    /// Whether brew has been looked for since the last "Re-check".
    pub fn status_checked(&self) -> (b: bool)
        ensures
            b == self@.status_checked,
    {
        self.status_checked
    }

    /// Whether a job is running.
    pub fn busy(&self) -> (b: bool)
        ensures
            b == self@.busy,
    {
        self.busy
    }

    /// The name of the running job.
    pub fn current_op(&self) -> (r: Option<String>)
        ensures
            opt_view(r) == self@.current_op,
    {
        clone_opt(&self.current_op)
    }

    /// The filter text of the installed page.
    pub fn installed_filter(&self) -> (r: &String)
        ensures
            r@ == self@.installed_filter,
    {
        &self.installed_filter
    }

    /// Change the filter text of the installed page.
    pub fn set_installed_filter(&mut self, f: String)
        requires
            old(self).wf(),
        ensures
            final(self).wf(),
            final(self)@ == (ManagerView { installed_filter: f@, ..old(self)@ }),
    {
        self.installed_filter = f;
        assert(self@ =~= ManagerView { installed_filter: f@, ..old(self)@ });
    }

    /// How many installed packages are selected.
    pub fn selected_installed_count(&self) -> (n: usize)
        ensures
            n == self@.selected_installed.len(),
    {
        self.selected_installed.len()
    }

    /// Whether the installed package `name` is selected.
    pub fn is_installed_selected(&self, name: &String) -> (b: bool)
        ensures
            b == self@.selected_installed.contains(name@),
    {
        contains_string(&self.selected_installed, name)
    }

    /// The search query.
    pub fn search_query(&self) -> (r: &String)
        ensures
            r@ == self@.search_query,
    {
        &self.search_query
    }

    /// Change the search query.
    pub fn set_search_query(&mut self, q: String)
        requires
            old(self).wf(),
        ensures
            final(self).wf(),
            final(self)@ == (ManagerView { search_query: q@, ..old(self)@ }),
    {
        self.search_query = q;
        assert(self@ =~= ManagerView { search_query: q@, ..old(self)@ });
    }

    /// The names the last search found.
    pub fn search_results(&self) -> (r: &Vec<String>)
        ensures
            strings_view(r@) == self@.search_results,
    {
        &self.search_results
    }

    /// How many search results are selected.
    pub fn selected_search_count(&self) -> (n: usize)
        ensures
            n == self@.selected_search.len(),
    {
        self.selected_search.len()
    }

    /// Whether the search result `name` is selected.
    pub fn is_search_selected(&self, name: &String) -> (b: bool)
        ensures
            b == self@.selected_search.contains(name@),
    {
        contains_string(&self.selected_search, name)
    }

    /// Whether packages are installed as casks.
    pub fn install_as_cask(&self) -> (b: bool)
        ensures
            b == self@.install_as_cask,
    {
        self.install_as_cask
    }

    /// Choose whether packages are installed as casks.
    pub fn set_install_as_cask(&mut self, b: bool)
        requires
            old(self).wf(),
        ensures
            final(self).wf(),
            final(self)@ == (ManagerView { install_as_cask: b, ..old(self)@ }),
    {
        self.install_as_cask = b;
        assert(self@ =~= ManagerView { install_as_cask: b, ..old(self)@ });
    }

    /// The outdated packages.
    pub fn outdated(&self) -> (r: &Vec<OutdatedPackage>)
        ensures
            outdated_view(r@) == self@.outdated,
    {
        &self.outdated
    }

    /// How many outdated packages are selected.
    pub fn selected_outdated_count(&self) -> (n: usize)
        ensures
            n == self@.selected_outdated.len(),
    {
        self.selected_outdated.len()
    }

    /// Whether the outdated package `name` is selected.
    pub fn is_outdated_selected(&self, name: &String) -> (b: bool)
        ensures
            b == self@.selected_outdated.contains(name@),
    {
        contains_string(&self.selected_outdated, name)
    }

    /// The package whose `brew info` text is shown, if any.
    pub fn info_name(&self) -> (r: Option<String>)
        ensures
            opt_view(r) == self@.info_name,
    {
        clone_opt(&self.info_name)
    }

    /// The `brew info` text shown.
    pub fn info_text(&self) -> (r: &String)
        ensures
            r@ == self@.info_text,
    {
        &self.info_text
    }

    /// Close the `brew info` window.
    pub fn close_info(&mut self)
        requires
            old(self).wf(),
        ensures
            final(self).wf(),
            final(self)@ == (ManagerView { info_name: None, ..old(self)@ }),
    {
        self.info_name = None;
        assert(self@ =~= ManagerView { info_name: None, ..old(self)@ });
    }

    /// The console lines.
    pub fn log(&self) -> (r: &Vec<String>)
        ensures
            strings_view(r@) == self@.log,
    {
        &self.log
    }

    /// "Clear" the console.
    pub fn clear_log(&mut self)
        requires
            old(self).wf(),
        ensures
            final(self).wf(),
            final(self)@ == (ManagerView { log: seq![], ..old(self)@ }),
    {
        self.log = Vec::new();
        assert(self@ =~= ManagerView { log: seq![], ..old(self)@ });
    }

    /// Whether the console follows new lines.
    pub fn autoscroll_log(&self) -> (b: bool)
        ensures
            b == self@.autoscroll_log,
    {
        self.autoscroll_log
    }

    /// Choose whether the console follows new lines.
    pub fn set_autoscroll_log(&mut self, b: bool)
        requires
            old(self).wf(),
        ensures
            final(self).wf(),
            final(self)@ == (ManagerView { autoscroll_log: b, ..old(self)@ }),
    {
        self.autoscroll_log = b;
        assert(self@ =~= ManagerView { autoscroll_log: b, ..old(self)@ });
    }
}

// ---------------------------------------------------------------------
// What the side bar and the status page say of brew
// ---------------------------------------------------------------------

/// What is known of brew's presence.
#[derive(PartialEq, Eq, Structural, Clone, Copy, Debug)]
pub enum BrewState {
    /// brew was found.
    Installed,
    /// brew was looked for and not found.
    NotFound,
    /// brew is being looked for.
    Checking,
}

pub open spec fn brew_state_of(v: ManagerView) -> BrewState {
    if v.status.installed {
        BrewState::Installed
    } else if v.status_checked {
        BrewState::NotFound
    } else {
        BrewState::Checking
    }
}

/// The version line shown under "brew installed": the version, when brew
/// was found and its version is known.
pub open spec fn shown_version_of(v: ManagerView) -> Option<Seq<char>> {
    if v.status.installed && v.status.version.len() > 0 {
        Some(v.status.version)
    } else {
        None
    }
}

impl HomebrewManagerApp {
    /// Whether brew was found, was not found, or is being looked for; the
    /// status page offers to install Homebrew when it was not found.
    pub fn brew_state(&self) -> (s: BrewState)
        ensures
            s == brew_state_of(self@),
    {
        if self.status.installed {
            BrewState::Installed
        } else if self.status_checked {
            BrewState::NotFound
        } else {
            BrewState::Checking
        }
    }

    /// The version line shown under "brew installed", if any.
    pub fn shown_version(&self) -> (r: Option<String>)
        ensures
            opt_view(r) == shown_version_of(self@),
    {
        if self.status.installed && !self.status.version.as_str().is_empty() {
            Some(self.status.version.clone())
        } else {
            None
        }
    }

    /// "pin" or "unpin" beside the outdated package `pkg`: pin it when it is
    /// not pinned, unpin it when it is.
    pub fn toggle_pin(&mut self, pkg: &OutdatedPackage) -> (r: Vec<Action>)
        requires
            old(self).wf(),
        ensures
            final(self).wf(),
            (final(self)@, actions_view(r@)) == on_pin(old(self)@, pkg.name@, !pkg.pinned),
    {
        self.set_pinned(&pkg.name, !pkg.pinned)
    }
}

} // verus!
