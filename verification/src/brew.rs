//! The `brew` command line: the commands this program runs and the rules
//! by which their output becomes package lists, search results and the
//! installation status.
//!
//! Nothing here starts a process. Each operation is described as a
//! `BrewCommand`; whoever runs it hands the captured output back to the
//! functions below, which decide what the program learns from it.
use vstd::prelude::*;

use crate::text::{
    chars_of, contains_chars, contains_seq, find, find_char, join, join_chars, lines, next_line,
    split_whitespace_chars, starts_with, starts_with_chars, string_from_chars, strip_prefixes,
    strip_prefixes_chars, sub_chars, trim, trim_chars, trim_start, trim_start_chars, words,
};

verus! {

// ---------------------------------------------------------------------
// Data
// ---------------------------------------------------------------------

/// Messages sent from background work back to the interface.
#[derive(Debug, Clone)]
pub enum Event {
    /// A single line of output from a running command (stdout or stderr).
    Log(String),
    /// A running command finished.
    Finished { success: bool, exit_code: Option<i32> },
    /// Result of checking whether brew is installed.
    Status(BrewStatus),
    InstalledFormulae(Vec<Package>),
    InstalledCasks(Vec<Package>),
    Outdated(Vec<OutdatedPackage>),
    SearchResults(Vec<String>),
    /// (name, full `brew info` text)
    Info(String, String),
}

#[derive(Debug, Clone)]
pub struct BrewStatus {
    pub installed: bool,
    pub version: String,
    pub prefix: String,
    pub brew_path: Option<String>,
}

#[derive(Debug, Clone)]
pub struct Package {
    pub name: String,
    pub version: String,
}

#[derive(Debug, Clone)]
pub struct OutdatedPackage {
    pub name: String,
    pub current: String,
    pub latest: String,
    pub pinned: bool,
    pub is_cask: bool,
}

/// A program to run, with its arguments and the environment variables
/// set for it.
#[derive(Debug, Clone)]
pub struct BrewCommand {
    pub program: String,
    pub args: Vec<String>,
    pub envs: Vec<(String, String)>,
}

// ---------------------------------------------------------------------
// Models
// ---------------------------------------------------------------------

#[verifier::ext_equal]
pub struct PackageView {
    pub name: Seq<char>,
    pub version: Seq<char>,
}

#[verifier::ext_equal]
pub struct OutdatedView {
    pub name: Seq<char>,
    pub current: Seq<char>,
    pub latest: Seq<char>,
    pub pinned: bool,
    pub is_cask: bool,
}

#[verifier::ext_equal]
pub struct StatusView {
    pub installed: bool,
    pub version: Seq<char>,
    pub prefix: Seq<char>,
    pub brew_path: Option<Seq<char>>,
}

#[verifier::ext_equal]
pub struct CommandView {
    pub program: Seq<char>,
    pub args: Seq<Seq<char>>,
    pub envs: Seq<(Seq<char>, Seq<char>)>,
}

pub enum EventView {
    Log(Seq<char>),
    Finished { success: bool, exit_code: Option<i32> },
    Status(StatusView),
    InstalledFormulae(Seq<PackageView>),
    InstalledCasks(Seq<PackageView>),
    Outdated(Seq<OutdatedView>),
    SearchResults(Seq<Seq<char>>),
    Info(Seq<char>, Seq<char>),
}

pub open spec fn opt_view(o: Option<String>) -> Option<Seq<char>> {
    match o {
        Some(s) => Some(s@),
        None => None,
    }
}

pub open spec fn strings_view(v: Seq<String>) -> Seq<Seq<char>> {
    v.map_values(|s: String| s@)
}

pub open spec fn packages_view(v: Seq<Package>) -> Seq<PackageView> {
    v.map_values(|p: Package| p@)
}

pub open spec fn outdated_view(v: Seq<OutdatedPackage>) -> Seq<OutdatedView> {
    v.map_values(|p: OutdatedPackage| p@)
}

pub open spec fn events_view(v: Seq<Event>) -> Seq<EventView> {
    v.map_values(|e: Event| e@)
}

impl View for Package {
    type V = PackageView;

    open spec fn view(&self) -> PackageView {
        PackageView { name: self.name@, version: self.version@ }
    }
}

impl View for OutdatedPackage {
    type V = OutdatedView;

    open spec fn view(&self) -> OutdatedView {
        OutdatedView {
            name: self.name@,
            current: self.current@,
            latest: self.latest@,
            pinned: self.pinned,
            is_cask: self.is_cask,
        }
    }
}

impl View for BrewStatus {
    type V = StatusView;

    open spec fn view(&self) -> StatusView {
        StatusView {
            installed: self.installed,
            version: self.version@,
            prefix: self.prefix@,
            brew_path: opt_view(self.brew_path),
        }
    }
}

impl View for BrewCommand {
    type V = CommandView;

    open spec fn view(&self) -> CommandView {
        CommandView {
            program: self.program@,
            args: strings_view(self.args@),
            envs: self.envs@.map_values(|e: (String, String)| (e.0@, e.1@)),
        }
    }
}

impl View for Event {
    type V = EventView;

    open spec fn view(&self) -> EventView {
        match self {
            Event::Log(l) => EventView::Log(l@),
            Event::Finished { success, exit_code } => EventView::Finished {
                success: *success,
                exit_code: *exit_code,
            },
            Event::Status(s) => EventView::Status(s@),
            Event::InstalledFormulae(p) => EventView::InstalledFormulae(packages_view(p@)),
            Event::InstalledCasks(p) => EventView::InstalledCasks(packages_view(p@)),
            Event::Outdated(o) => EventView::Outdated(outdated_view(o@)),
            Event::SearchResults(r) => EventView::SearchResults(strings_view(r@)),
            Event::Info(n, t) => EventView::Info(n@, t@),
        }
    }
}

/// The status of a system on which brew was not found.
pub open spec fn not_installed() -> StatusView {
    StatusView { installed: false, version: seq![], prefix: seq![], brew_path: None }
}

impl Default for BrewStatus {
    fn default() -> (s: Self)
        ensures
            s@ == not_installed(),
    {
        BrewStatus { installed: false, version: String::new(), prefix: String::new(), brew_path: None }
    }
}

// ---------------------------------------------------------------------
// Output rules
// ---------------------------------------------------------------------

/// A line of `brew list --versions`: the first word names the package, the
/// other words are its installed versions, listed with ", " between them.
/// A blank line names nothing.
pub open spec fn package_of_line(l: Seq<char>) -> Option<PackageView> {
    if trim(l).len() == 0 {
        None
    } else {
        let ws = words(l);
        if ws.len() == 0 {
            Some(PackageView { name: seq![], version: seq![] })
        } else {
            Some(PackageView { name: ws[0], version: join(ws.skip(1), seq![',', ' ']) })
        }
    }
}

pub open spec fn packages_of_lines(ls: Seq<Seq<char>>) -> Seq<PackageView> {
    ls.filter_map(|l: Seq<char>| package_of_line(l))
}

/// The packages that the output of `brew list --versions` names, one per
/// non-blank line, in order.
pub open spec fn versions_list(text: Seq<char>) -> Seq<PackageView> {
    packages_of_lines(lines(text))
}

/// The two parentheses of an outdated-package line are in an order the
/// line can be cut at: where both occur, the first `(` comes before the
/// first `)`.
pub open spec fn outdated_line_ok(t: Seq<char>) -> bool {
    find_char(t, '(') < t.len() && find_char(t, ')') < t.len() ==> find_char(t, '(') < find_char(
        t,
        ')',
    )
}

/// Every line of `text`, trimmed, is an outdated-package line that can be
/// cut (see `outdated_line_ok`).
pub open spec fn outdated_text_ok(text: Seq<char>) -> bool {
    forall|i: int| 0 <= i < lines(text).len() ==> outdated_line_ok(#[trigger] trim(lines(text)[i]))
}

pub open spec fn pinned_marker() -> Seq<char> {
    seq!['[', 'p', 'i', 'n', 'n', 'e', 'd']
}

/// What follows the closing parenthesis of an outdated line, with leading
/// whitespace, every leading `!=`, every then leading `<`, and the
/// whitespace after those removed.
pub open spec fn after_comparison(rest: Seq<char>) -> Seq<char> {
    trim_start(strip_prefixes(strip_prefixes(trim_start(rest), seq!['!', '=']), seq!['<']))
}

/// A line of `brew outdated --verbose`, such as `git (2.40.0) < 2.42.0` or
/// `some-cask (1.2) != 1.3 [pinned]`: the name is what stands before the
/// first `(`, the current version what stands between it and the first
/// `)`, the latest version the first word after the comparison. Lines
/// without both parentheses name nothing.
pub open spec fn outdated_of_line(l: Seq<char>, is_cask: bool) -> Option<OutdatedView> {
    let t = trim(l);
    let ps = find_char(t, '(');
    let pe = find_char(t, ')');
    if t.len() == 0 || ps >= t.len() || pe >= t.len() {
        None
    } else {
        let ws = words(after_comparison(t.skip(pe + 1)));
        Some(
            OutdatedView {
                name: trim(t.take(ps)),
                current: t.subrange(ps + 1, pe),
                latest: if ws.len() > 0 {
                    ws[0]
                } else {
                    seq![]
                },
                pinned: contains_seq(t, pinned_marker()),
                is_cask: is_cask,
            },
        )
    }
}

pub open spec fn outdated_of_lines(ls: Seq<Seq<char>>, is_cask: bool) -> Seq<OutdatedView> {
    ls.filter_map(|l: Seq<char>| outdated_of_line(l, is_cask))
}

/// The packages that the output of `brew outdated --verbose` names, in
/// order, each marked as a cask or not by `is_cask`.
pub open spec fn outdated_list(text: Seq<char>, is_cask: bool) -> Seq<OutdatedView> {
    outdated_of_lines(lines(text), is_cask)
}

pub open spec fn section_marker() -> Seq<char> {
    seq!['=', '=', '>']
}

/// A line of `brew search`: its trimmed text, unless that is empty or a
/// `==>` section heading.
pub open spec fn search_result_of_line(l: Seq<char>) -> Option<Seq<char>> {
    let t = trim(l);
    if t.len() > 0 && !starts_with(t, section_marker()) {
        Some(t)
    } else {
        None
    }
}

pub open spec fn search_results_of_lines(ls: Seq<Seq<char>>) -> Seq<Seq<char>> {
    ls.filter_map(|l: Seq<char>| search_result_of_line(l))
}

/// The names that the output of `brew search` lists, in order.
pub open spec fn search_results(text: Seq<char>) -> Seq<Seq<char>> {
    search_results_of_lines(lines(text))
}

/// The first line of `text`, or nothing.
pub open spec fn first_line(text: Seq<char>) -> Seq<char> {
    if lines(text).len() > 0 {
        lines(text)[0]
    } else {
        seq![]
    }
}

/// The places where brew is looked for when it is not on `PATH`: Apple
/// Silicon macOS, Intel macOS, Linux.
pub open spec fn brew_candidates() -> Seq<Seq<char>> {
    seq!["/opt/homebrew/bin/brew"@, "/usr/local/bin/brew"@, "/home/linuxbrew/.linuxbrew/bin/brew"@]
}

/// Where brew is: the path that the `PATH` lookup printed, when it printed
/// one; else the first candidate that exists.
pub open spec fn located_brew(lookup: Option<Seq<char>>, exists: Seq<bool>) -> Option<Seq<char>> {
    if lookup is Some && trim(lookup->0).len() > 0 {
        Some(trim(lookup->0))
    } else if exists.len() > 0 && exists[0] {
        Some(brew_candidates()[0])
    } else if exists.len() > 1 && exists[1] {
        Some(brew_candidates()[1])
    } else if exists.len() > 2 && exists[2] {
        Some(brew_candidates()[2])
    } else {
        None
    }
}

/// The status of brew found at `brew_path` (or not found): its version is
/// the first line that `brew --version` printed, its prefix what
/// `brew --prefix` printed, trimmed.
pub open spec fn status_of(
    brew_path: Option<Seq<char>>,
    version_out: Option<Seq<char>>,
    prefix_out: Option<Seq<char>>,
) -> StatusView {
    match brew_path {
        None => not_installed(),
        Some(p) => StatusView {
            installed: true,
            version: match version_out {
                Some(v) => first_line(v),
                None => seq![],
            },
            prefix: match prefix_out {
                Some(x) => trim(x),
                None => seq![],
            },
            brew_path: Some(p),
        },
    }
}

/// The events that the two `brew list` outputs give: each list that was
/// obtained, formulae first.
pub open spec fn installed_events(f: Option<Seq<char>>, c: Option<Seq<char>>) -> Seq<EventView> {
    (match f {
        Some(t) => seq![EventView::InstalledFormulae(versions_list(t))],
        None => seq![],
    }) + (match c {
        Some(t) => seq![EventView::InstalledCasks(versions_list(t))],
        None => seq![],
    })
}

/// The outdated packages that the two `brew outdated` outputs give:
/// formulae first, then casks.
pub open spec fn all_outdated(f: Option<Seq<char>>, c: Option<Seq<char>>) -> Seq<OutdatedView> {
    (match f {
        Some(t) => outdated_list(t, false),
        None => seq![],
    }) + (match c {
        Some(t) => outdated_list(t, true),
        None => seq![],
    })
}

pub open spec fn command(program: Seq<char>, args: Seq<Seq<char>>) -> CommandView {
    CommandView { program, args, envs: seq![] }
}

// ---------------------------------------------------------------------
// Parsers
// ---------------------------------------------------------------------

/// The package that one line of `brew list --versions` names.
fn package_from_line(line: &Vec<char>) -> (r: Option<Package>)
    ensures
        match r {
            Some(p) => package_of_line(line@) == Some(p@),
            None => package_of_line(line@) is None,
        },
{
    let t = trim_chars(line);
    if t.len() == 0 {
        return None;
    }
    let ws = split_whitespace_chars(line);
    let ghost w = words(line@);
    if ws.len() == 0 {
        return Some(Package { name: String::new(), version: String::new() });
    }
    let name = string_from_chars(&ws[0]);
    let sep = vec![',', ' '];
    let v = join_chars(&ws, 1, &sep);
    assert(ws@.skip(1).map_values(|x: Vec<char>| x@) =~= w.skip(1));
    assert(sep@ =~= seq![',', ' ']);
    let version = string_from_chars(&v);
    Some(Package { name, version })
}

/// The packages that the output of `brew list --versions` names.
pub fn parse_versions_list(text: &str) -> (r: Vec<Package>)
    ensures
        packages_view(r@) == versions_list(text@),
{
    let t = chars_of(text);
    let mut out: Vec<Package> = Vec::new();
    let ghost mut done: Seq<Seq<char>> = seq![];
    let mut pos: usize = 0;
    assert(t@.skip(0) =~= t@);
    while pos < t.len()
        invariant
            pos <= t.len(),
            lines(t@) == done + lines(t@.skip(pos as int)),
            packages_view(out@) == packages_of_lines(done),
        decreases t.len() - pos,
    {
        let (line, next) = next_line(&t, pos);
        let p = package_from_line(&line);
        proof {
            let d2 = done.push(line@);
            assert(d2.drop_last() =~= done);
            assert(done + (seq![line@] + lines(t@.skip(next as int))) =~= d2 + lines(
                t@.skip(next as int),
            ));
        }
        let ghost before = out@;
        match p {
            Some(pk) => {
                out.push(pk);
                assert(packages_view(out@) =~= packages_view(before) + seq![pk@]);
            },
            None => {},
        }
        proof {
            done = done.push(line@);
        }
        pos = next;
    }
    assert(t@.skip(pos as int) =~= Seq::<char>::empty());
    assert(done + Seq::<Seq<char>>::empty() =~= done);
    out
}

/// The outdated package that one line of `brew outdated --verbose` names.
fn outdated_from_line(line: &Vec<char>, is_cask: bool) -> (r: Option<OutdatedPackage>)
    requires
        outdated_line_ok(trim(line@)),
    ensures
        match r {
            Some(p) => outdated_of_line(line@, is_cask) == Some(p@),
            None => outdated_of_line(line@, is_cask) is None,
        },
{
    let t = trim_chars(line);
    if t.len() == 0 {
        return None;
    }
    let marker = vec!['[', 'p', 'i', 'n', 'n', 'e', 'd'];
    assert(marker@ =~= pinned_marker());
    let pinned = contains_chars(&t, &marker);
    let ps = match find(&t, '(') {
        Some(i) => i,
        None => return None,
    };
    let pe = match find(&t, ')') {
        Some(i) => i,
        None => return None,
    };
    let head = sub_chars(&t, 0, ps);
    let name_chars = trim_chars(&head);
    let current_chars = sub_chars(&t, ps + 1, pe);
    let tail = sub_chars(&t, pe + 1, t.len());
    let r1 = trim_start_chars(&tail);
    let ne = vec!['!', '='];
    let lt = vec!['<'];
    let r2 = strip_prefixes_chars(&r1, &ne);
    let r3 = strip_prefixes_chars(&r2, &lt);
    let rest = trim_start_chars(&r3);
    proof {
        assert(head@ =~= t@.take(ps as int));
        assert(tail@ =~= t@.skip(pe + 1));
        assert(ne@ =~= seq!['!', '=']);
        assert(lt@ =~= seq!['<']);
    }
    let ws = split_whitespace_chars(&rest);
    let latest = if ws.len() > 0 {
        string_from_chars(&ws[0])
    } else {
        String::new()
    };
    Some(
        OutdatedPackage {
            name: string_from_chars(&name_chars),
            current: string_from_chars(&current_chars),
            latest,
            pinned,
            is_cask,
        },
    )
}

/// Whether every line of `text` can be read as an outdated-package line
/// (see `outdated_text_ok`).
pub fn outdated_text_is_well_formed(text: &str) -> (b: bool)
    ensures
        b == outdated_text_ok(text@),
{
    let t = chars_of(text);
    let ghost mut done: Seq<Seq<char>> = seq![];
    let mut pos: usize = 0;
    assert(t@.skip(0) =~= t@);
    while pos < t.len()
        invariant
            pos <= t.len(),
            lines(t@) == done + lines(t@.skip(pos as int)),
            t@ == text@,
            forall|i: int| 0 <= i < done.len() ==> outdated_line_ok(#[trigger] trim(done[i])),
        decreases t.len() - pos,
    {
        let (line, next) = next_line(&t, pos);
        proof {
            assert(done + (seq![line@] + lines(t@.skip(next as int))) =~= done.push(line@)
                + lines(t@.skip(next as int)));
        }
        let tl = trim_chars(&line);
        let ok = match (find(&tl, '('), find(&tl, ')')) {
            (Some(a), Some(b)) => a < b,
            _ => true,
        };
        if !ok {
            assert(lines(t@)[done.len() as int] == line@);
            assert(!outdated_line_ok(trim(lines(t@)[done.len() as int])));
            assert(done.len() < lines(text@).len());
            return false;
        }
        proof {
            done = done.push(line@);
        }
        pos = next;
    }
    assert(t@.skip(pos as int) =~= Seq::<char>::empty());
    assert(done + Seq::<Seq<char>>::empty() =~= done);
    true
}

/// The outdated packages that the output of `brew outdated --verbose`
/// names, each marked as a cask or not by `is_cask`.
pub fn parse_outdated(text: &str, is_cask: bool) -> (r: Vec<OutdatedPackage>)
    requires
        outdated_text_ok(text@),
    ensures
        outdated_view(r@) == outdated_list(text@, is_cask),
{
    let t = chars_of(text);
    let mut out: Vec<OutdatedPackage> = Vec::new();
    let ghost mut done: Seq<Seq<char>> = seq![];
    let mut pos: usize = 0;
    assert(t@.skip(0) =~= t@);
    while pos < t.len()
        invariant
            pos <= t.len(),
            lines(t@) == done + lines(t@.skip(pos as int)),
            outdated_text_ok(t@),
            outdated_view(out@) == outdated_of_lines(done, is_cask),
        decreases t.len() - pos,
    {
        let (line, next) = next_line(&t, pos);
        proof {
            let d2 = done.push(line@);
            assert(d2.drop_last() =~= done);
            assert(done + (seq![line@] + lines(t@.skip(next as int))) =~= d2 + lines(
                t@.skip(next as int),
            ));
            assert(lines(t@)[done.len() as int] == line@);
        }
        let p = outdated_from_line(&line, is_cask);
        let ghost before = out@;
        match p {
            Some(pk) => {
                out.push(pk);
                assert(outdated_view(out@) =~= outdated_view(before) + seq![pk@]);
            },
            None => {},
        }
        proof {
            done = done.push(line@);
        }
        pos = next;
    }
    assert(t@.skip(pos as int) =~= Seq::<char>::empty());
    assert(done + Seq::<Seq<char>>::empty() =~= done);
    out
}

/// The names that the output of `brew search` lists.
pub fn parse_search_results(text: &str) -> (r: Vec<String>)
    ensures
        strings_view(r@) == search_results(text@),
{
    let t = chars_of(text);
    let heading = vec!['=', '=', '>'];
    assert(heading@ =~= section_marker());
    let mut out: Vec<String> = Vec::new();
    let ghost mut done: Seq<Seq<char>> = seq![];
    let mut pos: usize = 0;
    assert(t@.skip(0) =~= t@);
    while pos < t.len()
        invariant
            pos <= t.len(),
            heading@ == section_marker(),
            lines(t@) == done + lines(t@.skip(pos as int)),
            strings_view(out@) == search_results_of_lines(done),
        decreases t.len() - pos,
    {
        let (line, next) = next_line(&t, pos);
        proof {
            let d2 = done.push(line@);
            assert(d2.drop_last() =~= done);
            assert(done + (seq![line@] + lines(t@.skip(next as int))) =~= d2 + lines(
                t@.skip(next as int),
            ));
        }
        let tl = trim_chars(&line);
        let ghost before = out@;
        if tl.len() > 0 && !starts_with_chars(&tl, &heading) {
            let s = string_from_chars(&tl);
            out.push(s);
            assert(strings_view(out@) =~= strings_view(before) + seq![tl@]);
        }
        proof {
            done = done.push(line@);
        }
        pos = next;
    }
    assert(t@.skip(pos as int) =~= Seq::<char>::empty());
    assert(done + Seq::<Seq<char>>::empty() =~= done);
    out
}

// ---------------------------------------------------------------------
// Locating brew and reading its status
// ---------------------------------------------------------------------

fn owned(s: &str) -> (r: String)
    ensures
        r@ == s@,
{
    s.to_string()
}

/// The places where brew is looked for when it is not on `PATH`, in the
/// order they are tried.
pub fn candidate_paths() -> (r: Vec<String>)
    ensures
        r.len() == 3,
        strings_view(r@) == brew_candidates(),
{
    let r = vec![
        owned("/opt/homebrew/bin/brew"),
        owned("/usr/local/bin/brew"),
        owned("/home/linuxbrew/.linuxbrew/bin/brew"),
    ];
    assert(strings_view(r@) =~= brew_candidates());
    r
}

/// The command that asks the shell where `brew` is on `PATH`.
pub fn path_lookup_command() -> (c: BrewCommand)
    ensures
        c@ == command("sh"@, seq!["-c"@, "command -v brew"@]),
{
    let args = vec![owned("-c"), owned("command -v brew")];
    let c = BrewCommand { program: owned("sh"), args, envs: Vec::new() };
    assert(c@.args =~= seq!["-c"@, "command -v brew"@]);
    assert(c@.envs =~= Seq::<(Seq<char>, Seq<char>)>::empty());
    c
}

/// Where brew is. `path_lookup` is what the `PATH` lookup printed, when it
/// succeeded; `candidate_exists[i]` tells whether the `i`-th of
/// `candidate_paths()` exists (a missing entry counts as absent).
pub fn find_brew_binary(path_lookup: Option<String>, candidate_exists: &Vec<bool>) -> (r: Option<
    String,
>)
    ensures
        opt_view(r) == located_brew(opt_view(path_lookup), candidate_exists@),
{
    let ghost lookup = opt_view(path_lookup);
    if let Some(out) = path_lookup {
        let oc = chars_of(out.as_str());
        let t = trim_chars(&oc);
        if t.len() > 0 {
            return Some(string_from_chars(&t));
        }
    }
    let candidates = candidate_paths();
    assert(candidates.len() == 3);
    let mut i: usize = 0;
    while i < 3
        invariant
            i <= 3,
            strings_view(candidates@) == brew_candidates(),
            candidates.len() == 3,
            !(lookup is Some && trim(lookup->0).len() > 0),
            lookup == opt_view(path_lookup),
            forall|k: int| 0 <= k < i ==> !(k < candidate_exists@.len() && candidate_exists@[k]),
        decreases 3 - i,
    {
        if i < candidate_exists.len() && candidate_exists[i] {
            let c = candidates[i].clone();
            assert(c@ == brew_candidates()[i as int]);
            return Some(c);
        }
        i += 1;
    }
    None
}

/// The command that prints brew's version.
pub fn version_command(brew_path: &String) -> (c: BrewCommand)
    ensures
        c@ == command(brew_path@, seq!["--version"@]),
{
    let args = vec![owned("--version")];
    assert(strings_view(args@) =~= seq!["--version"@]);
    run_brew(brew_path.as_str(), args)
}

/// The command that prints brew's install prefix.
pub fn prefix_command(brew_path: &String) -> (c: BrewCommand)
    ensures
        c@ == command(brew_path@, seq!["--prefix"@]),
{
    let args = vec![owned("--prefix")];
    assert(strings_view(args@) =~= seq!["--prefix"@]);
    run_brew(brew_path.as_str(), args)
}

/// The status of brew found at `brew_path` (`None`: not found), given what
/// `brew --version` and `brew --prefix` printed when they ran and printed
/// valid UTF-8.
pub fn get_status(
    brew_path: Option<String>,
    version_output: Option<String>,
    prefix_output: Option<String>,
) -> (s: BrewStatus)
    ensures
        s@ == status_of(opt_view(brew_path), opt_view(version_output), opt_view(prefix_output)),
        s.installed <==> s.brew_path is Some,
{
    match brew_path {
        None => BrewStatus::default(),
        Some(path) => {
            let version = match version_output {
                Some(v) => {
                    let vc = chars_of(v.as_str());
                    if vc.len() > 0 {
                        let (line, next) = next_line(&vc, 0);
                        assert(vc@.skip(0) =~= vc@);
                        string_from_chars(&line)
                    } else {
                        assert(vc@ =~= Seq::<char>::empty());
                        String::new()
                    }
                },
                None => String::new(),
            };
            let prefix = match prefix_output {
                Some(p) => {
                    let pc = chars_of(p.as_str());
                    string_from_chars(&trim_chars(&pc))
                },
                None => String::new(),
            };
            BrewStatus { installed: true, version, prefix, brew_path: Some(path) }
        },
    }
}

// ---------------------------------------------------------------------
// Reading package lists
// ---------------------------------------------------------------------

/// The command that lists the installed formulae (or casks) with their
/// versions.
pub fn installed_command(brew_path: &String, cask: bool) -> (c: BrewCommand)
    ensures
        c@ == command(
            brew_path@,
            seq!["list"@, if cask { "--cask"@ } else { "--formula"@ }, "--versions"@],
        ),
{
    let kind = if cask {
        owned("--cask")
    } else {
        owned("--formula")
    };
    let args = vec![owned("list"), kind, owned("--versions")];
    assert(strings_view(args@) =~= seq!["list"@, kind@, "--versions"@]);
    run_brew(brew_path.as_str(), args)
}

/// The events that the outputs of the two `brew list` commands give (`None`:
/// the command could not be run): the formulae, then the casks.
pub fn refresh_installed(formulae_output: Option<String>, casks_output: Option<String>) -> (r: Vec<
    Event,
>)
    ensures
        events_view(r@) == installed_events(opt_view(formulae_output), opt_view(casks_output)),
{
    let mut r: Vec<Event> = Vec::new();
    if let Some(f) = formulae_output {
        r.push(Event::InstalledFormulae(parse_versions_list(f.as_str())));
    }
    if let Some(c) = casks_output {
        r.push(Event::InstalledCasks(parse_versions_list(c.as_str())));
    }
    assert(events_view(r@) =~= installed_events(
        opt_view(formulae_output),
        opt_view(casks_output),
    ));
    r
}

/// The command that lists the outdated formulae (or casks).
pub fn outdated_command(brew_path: &String, cask: bool) -> (c: BrewCommand)
    ensures
        c@ == command(
            brew_path@,
            seq!["outdated"@, if cask { "--cask"@ } else { "--formula"@ }, "--verbose"@],
        ),
{
    let kind = if cask {
        owned("--cask")
    } else {
        owned("--formula")
    };
    let args = vec![owned("outdated"), kind, owned("--verbose")];
    assert(strings_view(args@) =~= seq!["outdated"@, kind@, "--verbose"@]);
    run_brew(brew_path.as_str(), args)
}

/// The event that the outputs of the two `brew outdated` commands give:
/// one list, formulae first, then casks.
pub fn refresh_outdated(formulae_output: Option<String>, casks_output: Option<String>) -> (e: Event)
    requires
        formulae_output matches Some(t) ==> outdated_text_ok(t@),
        casks_output matches Some(t) ==> outdated_text_ok(t@),
    ensures
        e@ == EventView::Outdated(all_outdated(opt_view(formulae_output), opt_view(casks_output))),
{
    let mut all: Vec<OutdatedPackage> = Vec::new();
    if let Some(f) = formulae_output {
        all = parse_outdated(f.as_str(), false);
    }
    if let Some(c) = casks_output {
        let mut more = parse_outdated(c.as_str(), true);
        all.append(&mut more);
    }
    assert(outdated_view(all@) =~= all_outdated(opt_view(formulae_output), opt_view(casks_output)));
    Event::Outdated(all)
}

/// The command that searches for packages matching `query`.
pub fn search_command(brew_path: &String, query: String) -> (c: BrewCommand)
    ensures
        c@ == command(brew_path@, seq!["search"@, query@]),
{
    let args = vec![owned("search"), query];
    assert(strings_view(args@) =~= seq!["search"@, query@]);
    run_brew(brew_path.as_str(), args)
}

/// The event that the output of `brew search` gives, when it could be run.
pub fn search(output: Option<String>) -> (e: Option<Event>)
    ensures
        match output {
            Some(t) => e matches Some(ev) && ev@ == EventView::SearchResults(search_results(t@)),
            None => e is None,
        },
{
    match output {
        Some(t) => Some(Event::SearchResults(parse_search_results(t.as_str()))),
        None => None,
    }
}

/// The command that prints the `brew info` text of `name`.
pub fn info_command(brew_path: &String, name: &String) -> (c: BrewCommand)
    ensures
        c@ == command(brew_path@, seq!["info"@, name@]),
{
    let args = vec![owned("info"), name.clone()];
    assert(strings_view(args@) =~= seq!["info"@, name@]);
    run_brew(brew_path.as_str(), args)
}

/// The event that `brew info name` gives: its output, or an empty text when
/// it could not be run.
pub fn info(name: String, output: Option<String>) -> (e: Event)
    ensures
        e@ == EventView::Info(
            name@,
            match output {
                Some(t) => t@,
                None => seq![],
            },
        ),
{
    let text = match output {
        Some(t) => t,
        None => String::new(),
    };
    Event::Info(name, text)
}

// ---------------------------------------------------------------------
// Streamed commands
// ---------------------------------------------------------------------

/// `brew <args...>` for the brew at `brew_path`: that program with these
/// arguments, in order, and no variable added to its environment.
pub fn run_brew(brew_path: &str, args: Vec<String>) -> (c: BrewCommand)
    ensures
        c@ == command(brew_path@, strings_view(args@)),
{
    let c = BrewCommand { program: owned(brew_path), args, envs: Vec::new() };
    assert(c@.envs =~= Seq::<(Seq<char>, Seq<char>)>::empty());
    c
}

pub open spec fn install_script() -> Seq<char> {
    "curl -fsSL https://raw.githubusercontent.com/Homebrew/install/HEAD/install.sh | bash"@
}

/// `bash -c <install script>` with `NONINTERACTIVE=1` set.
pub open spec fn homebrew_installer() -> CommandView {
    CommandView {
        program: "bash"@,
        args: seq!["-c"@, install_script()],
        envs: seq![("NONINTERACTIVE"@, "1"@)],
    }
}

/// The official Homebrew installer, run non-interactively
/// (`NONINTERACTIVE=1` skips its "Press RETURN to continue" prompt).
pub fn install_homebrew() -> (c: BrewCommand)
    ensures
        c@ == homebrew_installer(),
{
    let script = owned(
        "curl -fsSL https://raw.githubusercontent.com/Homebrew/install/HEAD/install.sh | bash",
    );
    let args = vec![owned("-c"), script];
    let envs = vec![(owned("NONINTERACTIVE"), owned("1"))];
    let c = BrewCommand { program: owned("bash"), args, envs };
    assert(c@.args =~= seq!["-c"@, install_script()]);
    assert(c@.envs =~= seq![("NONINTERACTIVE"@, "1"@)]);
    c
}

/// `brew update`.
pub fn update(brew_path: String) -> (c: BrewCommand)
    ensures
        c@ == command(brew_path@, seq!["update"@]),
{
    let args = vec![owned("update")];
    assert(strings_view(args@) =~= seq!["update"@]);
    run_brew(brew_path.as_str(), args)
}

/// `brew upgrade`.
pub fn upgrade_all(brew_path: String) -> (c: BrewCommand)
    ensures
        c@ == command(brew_path@, seq!["upgrade"@]),
{
    let args = vec![owned("upgrade")];
    assert(strings_view(args@) =~= seq!["upgrade"@]);
    run_brew(brew_path.as_str(), args)
}

/// `head` followed by `names`.
fn with_names(head: Vec<String>, names: Vec<String>) -> (r: Vec<String>)
    ensures
        strings_view(r@) == strings_view(head@) + strings_view(names@),
{
    let mut r = head;
    let mut n = names;
    let ghost h = r@;
    let ghost m = n@;
    r.append(&mut n);
    assert(strings_view(r@) =~= strings_view(h) + strings_view(m));
    r
}

/// `brew upgrade <names...>`.
pub fn upgrade_packages(brew_path: String, names: Vec<String>) -> (c: BrewCommand)
    ensures
        c@ == command(brew_path@, seq!["upgrade"@] + strings_view(names@)),
{
    let head = vec![owned("upgrade")];
    assert(strings_view(head@) =~= seq!["upgrade"@]);
    let args = with_names(head, names);
    run_brew(brew_path.as_str(), args)
}

/// The verb followed, for casks, by `--cask`.
pub open spec fn verb_args(verb: Seq<char>, cask: bool) -> Seq<Seq<char>> {
    if cask {
        seq![verb, "--cask"@]
    } else {
        seq![verb]
    }
}

fn verb_with_kind(verb: &str, cask: bool) -> (r: Vec<String>)
    ensures
        strings_view(r@) == verb_args(verb@, cask),
{
    let mut r = vec![owned(verb)];
    if cask {
        r.push(owned("--cask"));
    }
    assert(strings_view(r@) =~= verb_args(verb@, cask));
    r
}

/// `brew install [--cask] <names...>`.
pub fn install_packages(brew_path: String, names: Vec<String>, cask: bool) -> (c: BrewCommand)
    ensures
        c@ == command(brew_path@, verb_args("install"@, cask) + strings_view(names@)),
{
    let args = with_names(verb_with_kind("install", cask), names);
    run_brew(brew_path.as_str(), args)
}

/// `brew uninstall [--cask] <names...>`.
pub fn uninstall_packages(brew_path: String, names: Vec<String>, cask: bool) -> (c: BrewCommand)
    ensures
        c@ == command(brew_path@, verb_args("uninstall"@, cask) + strings_view(names@)),
{
    let args = with_names(verb_with_kind("uninstall", cask), names);
    run_brew(brew_path.as_str(), args)
}

/// `brew pin <names...>`, or `brew unpin <names...>`.
pub fn pin_packages(brew_path: String, names: Vec<String>, pin: bool) -> (c: BrewCommand)
    ensures
        c@ == command(
            brew_path@,
            seq![if pin { "pin"@ } else { "unpin"@ }] + strings_view(names@),
        ),
{
    let verb = if pin {
        owned("pin")
    } else {
        owned("unpin")
    };
    let head = vec![verb];
    assert(strings_view(head@) =~= seq![if pin { "pin"@ } else { "unpin"@ }]);
    let args = with_names(head, names);
    run_brew(brew_path.as_str(), args)
}

/// `brew cleanup -s`.
pub fn cleanup(brew_path: String) -> (c: BrewCommand)
    ensures
        c@ == command(brew_path@, seq!["cleanup"@, "-s"@]),
{
    let args = vec![owned("cleanup"), owned("-s")];
    assert(strings_view(args@) =~= seq!["cleanup"@, "-s"@]);
    run_brew(brew_path.as_str(), args)
}

/// `brew autoremove`.
pub fn autoremove(brew_path: String) -> (c: BrewCommand)
    ensures
        c@ == command(brew_path@, seq!["autoremove"@]),
{
    let args = vec![owned("autoremove")];
    assert(strings_view(args@) =~= seq!["autoremove"@]);
    run_brew(brew_path.as_str(), args)
}

/// `brew doctor`.
pub fn doctor(brew_path: String) -> (c: BrewCommand)
    ensures
        c@ == command(brew_path@, seq!["doctor"@]),
{
    let args = vec![owned("doctor")];
    assert(strings_view(args@) =~= seq!["doctor"@]);
    run_brew(brew_path.as_str(), args)
}

// ---------------------------------------------------------------------
// The end of a job
// ---------------------------------------------------------------------

/// How a job of commands run one after the other ended, from the outcomes
/// (success, exit code) of its commands in order: as the first command that
/// failed ended, or, when none failed, as the last one ended.
pub open spec fn job_outcome(rs: Seq<(bool, Option<i32>)>) -> (bool, Option<i32>)
    decreases rs.len(),
{
    if rs.len() == 0 {
        (true, None)
    } else if !rs[0].0 || rs.len() == 1 {
        rs[0]
    } else {
        job_outcome(rs.drop_first())
    }
}

/// The one `Event::Finished` that reports the end of a job whose commands
/// ended with `outcomes`, in order.
pub fn job_finished(outcomes: &Vec<(bool, Option<i32>)>) -> (e: Event)
    ensures
        e@ == (EventView::Finished {
            success: job_outcome(outcomes@).0,
            exit_code: job_outcome(outcomes@).1,
        }),
{
    let n = outcomes.len();
    if n == 0 {
        return Event::Finished { success: true, exit_code: None };
    }
    let mut i: usize = 0;
    assert(outcomes@.skip(0) =~= outcomes@);
    while i + 1 < n
        invariant
            n == outcomes.len(),
            i < n,
            job_outcome(outcomes@) == job_outcome(outcomes@.skip(i as int)),
        decreases n - i,
    {
        let (ok, code) = outcomes[i];
        if !ok {
            return Event::Finished { success: ok, exit_code: code };
        }
        assert(outcomes@.skip(i as int).drop_first() =~= outcomes@.skip(i + 1));
        i += 1;
    }
    let (ok, code) = outcomes[i];
    Event::Finished { success: ok, exit_code: code }
}

} // verus!
