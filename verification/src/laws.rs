//! Properties of the manager and the parsers that hold across calls and
//! for all inputs.
use vstd::prelude::*;

use crate::brew::{
    CommandView, after_comparison, job_outcome, pinned_marker, outdated_list, outdated_of_line, outdated_of_lines, package_of_line,
    packages_of_lines, search_result_of_line, search_results, search_results_of_lines,
    section_marker, versions_list, EventView, OutdatedView, PackageView,
};
use crate::manager::{
    after_event, event_actions, job_line, manager_ok, on_install_homebrew, on_install_one,
    on_install_selected, on_maintenance, on_recheck, on_refresh_installed, on_refresh_outdated,
    on_uninstall_selected, on_upgrade_all, on_upgrade_selected_installed,
    on_upgrade_selected_outdated, on_pin, selected_after, uninstall_commands, selection_ok, started, summary_line, unchanged,
    without, kept, names_of, visible, ActionView, Maintenance, ManagerView,
};
use crate::text::{
    contains_seq, find_char, find_ws, is_ws, join, lemma_find_char, lemma_find_char_unique,
    lemma_find_ws, lemma_find_ws_unique, lemma_trim_end_take, lemma_trim_start_len,
    lemma_trim_start_skip, lines, starts_with, strip_cr, strip_prefixes, trim, trim_end,
    trim_start, words, lowercase,
};

verus! {

// ---------------------------------------------------------------------
// Jobs and events
// ---------------------------------------------------------------------

/// A job runs from its start to its end: once started the manager is busy
/// with it; when it reports its end the manager is idle again, and the
/// console holds exactly two new lines, the one announcing the job and the
/// one reporting how it ended.
pub proof fn law_job_lifecycle(v: ManagerView, label: Seq<char>, success: bool, code: Option<i32>)
    ensures
        started(v, label).busy,
        started(v, label).current_op == Some(label),
        !after_event(started(v, label), EventView::Finished { success, exit_code: code }).busy,
        after_event(started(v, label), EventView::Finished { success, exit_code: code }).current_op
            is None,
        after_event(started(v, label), EventView::Finished { success, exit_code: code }).log
            == v.log.push(job_line(label)).push(summary_line(label, success, code)),
{
}

/// No event takes a line out of the console: the console before an event
/// is a prefix of the console after it.
pub proof fn law_events_keep_log(v: ManagerView, e: EventView)
    ensures
        v.log.is_prefix_of(after_event(v, e).log),
{
    let w = after_event(v, e);
    assert(w.log.len() >= v.log.len());
    assert forall|i: int| 0 <= i < v.log.len() implies v.log[i] == w.log[i] by {}
}

/// Events leave the selections as they are, so a consistent state stays
/// consistent.
pub proof fn law_events_keep_state_consistent(v: ManagerView, e: EventView)
    requires
        manager_ok(v),
    ensures
        manager_ok(after_event(v, e)),
        after_event(v, e).selected_installed == v.selected_installed,
        after_event(v, e).selected_search == v.selected_search,
        after_event(v, e).selected_outdated == v.selected_outdated,
{
}

/// A job that failed starts no other work.
pub proof fn law_failed_job_refreshes_nothing(v: ManagerView, code: Option<i32>)
    ensures
        event_actions(v, EventView::Finished { success: false, exit_code: code }) == Seq::<
            ActionView,
        >::empty(),
{
}

/// After a job that may have changed the installed packages ends well, the
/// installed and the outdated packages of the same brew are read again.
pub proof fn law_changes_are_reread(v: ManagerView, path: Seq<char>, code: Option<i32>)
    requires
        v.status.brew_path == Some(path),
        v.current_op == Some("Install"@) || v.current_op == Some("Uninstall"@) || v.current_op
            == Some("Upgrade"@) || v.current_op == Some("Upgrade All"@) || v.current_op == Some(
            "Cleanup"@,
        ) || v.current_op == Some("Autoremove"@),
        v.current_op != Some("Install Homebrew"@),
    ensures
        event_actions(v, EventView::Finished { success: true, exit_code: code }) == seq![
            ActionView::RefreshInstalled(path),
            ActionView::RefreshOutdated(path),
        ],
{
}

/// After Homebrew was installed successfully, brew is looked for again,
/// whether or not it was known where brew was.
pub proof fn law_install_homebrew_rechecks_status(v: ManagerView, code: Option<i32>)
    requires
        v.current_op == Some("Install Homebrew"@),
    ensures
        event_actions(v, EventView::Finished { success: true, exit_code: code }) == seq![
            ActionView::RefreshStatus,
        ],
{
}

/// Once brew is found, its installed and outdated packages are read.
pub proof fn law_found_brew_is_read(v: ManagerView, e: EventView, path: Seq<char>)
    requires
        e matches EventView::Status(s) && s.installed && s.brew_path == Some(path),
    ensures
        event_actions(v, e) == seq![
            ActionView::RefreshInstalled(path),
            ActionView::RefreshOutdated(path),
        ],
        after_event(v, e).status_checked,
{
}

/// While a job runs, the buttons that start jobs or reread lists do
/// nothing (pinning is the exception: it is offered while a job runs).
pub proof fn law_busy_starts_nothing(v: ManagerView, name: Seq<char>, t: Maintenance)
    requires
        v.busy,
    ensures
        on_recheck(v) == unchanged(v),
        on_install_homebrew(v) == unchanged(v),
        on_uninstall_selected(v) == unchanged(v),
        on_upgrade_selected_installed(v) == unchanged(v),
        on_upgrade_selected_outdated(v) == unchanged(v),
        on_install_selected(v) == unchanged(v),
        on_install_one(v, name) == unchanged(v),
        on_upgrade_all(v) == unchanged(v),
        on_maintenance(v, t) == unchanged(v),
        on_refresh_installed(v) == Seq::<ActionView>::empty(),
        on_refresh_outdated(v) == Seq::<ActionView>::empty(),
{
}

// ---------------------------------------------------------------------
// Selections
// ---------------------------------------------------------------------

proof fn lemma_push_contains(s: Seq<Seq<char>>, a: Seq<char>, x: Seq<char>)
    ensures
        s.push(a).contains(x) <==> (s.contains(x) || x == a),
{
    if s.push(a).contains(x) {
        let k = choose|k: int| 0 <= k < s.push(a).len() && s.push(a)[k] == x;
        if k < s.len() {
            assert(s[k] == x);
        }
    }
    if s.contains(x) {
        let k = choose|k: int| 0 <= k < s.len() && s[k] == x;
        assert(s.push(a)[k] == x);
    }
    if x == a {
        assert(s.push(a)[s.len() as int] == x);
    }
}

proof fn lemma_without_contains(sel: Seq<Seq<char>>, name: Seq<char>, x: Seq<char>)
    ensures
        without(sel, name).contains(x) <==> (sel.contains(x) && x != name),
    decreases sel.len(),
{
    if sel.len() > 0 {
        let d = sel.drop_last();
        lemma_without_contains(d, name, x);
        assert(d.push(sel.last()) =~= sel);
        lemma_push_contains(d, sel.last(), x);
        if sel.last() != name {
            lemma_push_contains(without(d, name), sel.last(), x);
        }
    }
}

proof fn lemma_without_absent(sel: Seq<Seq<char>>, name: Seq<char>)
    requires
        !sel.contains(name),
    ensures
        without(sel, name) == sel,
    decreases sel.len(),
{
    if sel.len() > 0 {
        let d = sel.drop_last();
        assert(!d.contains(name)) by {
            if d.contains(name) {
                let k = choose|k: int| 0 <= k < d.len() && d[k] == name;
                assert(sel[k] == name);
            }
        }
        lemma_without_absent(d, name);
        assert(sel.last() != name) by {
            if sel.last() == name {
                assert(sel[sel.len() - 1] == name);
            }
        }
        assert(d.push(sel.last()) =~= sel);
    }
}

proof fn lemma_without_distinct(sel: Seq<Seq<char>>, name: Seq<char>)
    requires
        sel.no_duplicates(),
    ensures
        without(sel, name).no_duplicates(),
    decreases sel.len(),
{
    if sel.len() > 0 {
        let d = sel.drop_last();
        assert(d.no_duplicates()) by {
            assert forall|i: int, j: int| 0 <= i < d.len() && 0 <= j < d.len() && i != j implies d[i]
                != d[j] by {
                assert(d[i] == sel[i] && d[j] == sel[j]);
            }
        }
        lemma_without_distinct(d, name);
        if sel.last() != name {
            let w = without(d, name);
            lemma_without_contains(d, name, sel.last());
            assert(!d.contains(sel.last())) by {
                if d.contains(sel.last()) {
                    let k = choose|k: int| 0 <= k < d.len() && d[k] == sel.last();
                    assert(sel[k] == sel[sel.len() - 1]);
                }
            }
            assert forall|i: int, j: int|
                0 <= i < w.push(sel.last()).len() && 0 <= j < w.push(sel.last()).len() && i
                    != j implies w.push(sel.last())[i] != w.push(sel.last())[j] by {
                if i == w.len() {
                    assert(w.contains(w[j]));
                } else if j == w.len() {
                    assert(w.contains(w[i]));
                }
            }
        }
    }
}

/// Checking a name selects it, unchecking it takes it out, and neither
/// ever selects a name twice.
pub proof fn law_selection(sel: Seq<Seq<char>>, name: Seq<char>)
    requires
        selection_ok(sel),
    ensures
        selection_ok(selected_after(sel, name, true)),
        selection_ok(selected_after(sel, name, false)),
        selected_after(sel, name, true).to_set() == sel.to_set().insert(name),
        selected_after(sel, name, false).to_set() == sel.to_set().remove(name),
{
    let c = selected_after(sel, name, true);
    if !sel.contains(name) {
        assert forall|i: int, j: int| 0 <= i < c.len() && 0 <= j < c.len() && i != j implies c[i]
            != c[j] by {
            if i == sel.len() {
                assert(sel.contains(c[j]));
            } else if j == sel.len() {
                assert(sel.contains(c[i]));
            }
        }
        assert forall|x: Seq<char>| c.contains(x) <==> sel.contains(x) || x == name by {
            if c.contains(x) && x != name {
                let k = choose|k: int| 0 <= k < c.len() && c[k] == x;
                assert(sel[k] == x);
            }
            if sel.contains(x) {
                let k = choose|k: int| 0 <= k < sel.len() && sel[k] == x;
                assert(c[k] == x);
            }
            if x == name {
                assert(c[sel.len() as int] == x);
            }
        }
    }
    assert(c.to_set() =~= sel.to_set().insert(name));
    lemma_without_distinct(sel, name);
    assert forall|x: Seq<char>| #[trigger] without(sel, name).contains(x) <==> sel.contains(x)
        && x != name by {
        lemma_without_contains(sel, name, x);
    }
    assert(selected_after(sel, name, false).to_set() =~= sel.to_set().remove(name));
}

/// Checking a name that was not selected and then unchecking it gives back
/// the selection as it was.
pub proof fn law_select_undo(sel: Seq<Seq<char>>, name: Seq<char>)
    requires
        !sel.contains(name),
    ensures
        selected_after(selected_after(sel, name, true), name, false) == sel,
{
    let s = sel.push(name);
    assert(s.drop_last() =~= sel);
    lemma_without_absent(sel, name);
}

// ---------------------------------------------------------------------
// Parsers
// ---------------------------------------------------------------------

proof fn lemma_trim_end_len(s: Seq<char>)
    ensures
        trim_end(s).len() <= s.len(),
    decreases s.len(),
{
    if s.len() > 0 && is_ws(s.last()) {
        lemma_trim_end_len(s.drop_last());
    }
}

/// The first word of a non-blank line is not empty and holds no
/// whitespace.
proof fn lemma_first_word(l: Seq<char>)
    requires
        trim(l).len() > 0,
    ensures
        words(l).len() > 0,
        words(l)[0].len() > 0,
        forall|k: int| 0 <= k < words(l)[0].len() ==> !is_ws(#[trigger] words(l)[0][k]),
{
    let t = trim_start(l);
    lemma_trim_end_len(t);
    lemma_trim_start_len(l);
    lemma_find_ws(t);
    let w = find_ws(t);
    assert(w > 0);
    assert(words(l)[0] == t.take(w));
}

/// Every package that `brew list --versions` output names has a name: a
/// non-empty word without whitespace.
pub proof fn law_package_names_are_words(text: Seq<char>)
    ensures
        forall|i: int|
            0 <= i < versions_list(text).len() ==> {
                &&& (#[trigger] versions_list(text)[i]).name.len() > 0
                &&& forall|k: int|
                    0 <= k < versions_list(text)[i].name.len() ==> !is_ws(
                        versions_list(text)[i].name[k],
                    )
            },
{
    lemma_package_lines(lines(text));
}

proof fn lemma_package_lines(ls: Seq<Seq<char>>)
    ensures
        forall|i: int|
            0 <= i < packages_of_lines(ls).len() ==> {
                &&& (#[trigger] packages_of_lines(ls)[i]).name.len() > 0
                &&& forall|k: int|
                    0 <= k < packages_of_lines(ls)[i].name.len() ==> !is_ws(
                        packages_of_lines(ls)[i].name[k],
                    )
            },
    decreases ls.len(),
{
    if ls.len() > 0 {
        let d = ls.drop_last();
        lemma_package_lines(d);
        let l = ls.last();
        let pd = packages_of_lines(d);
        match package_of_line(l) {
            Some(p) => {
                lemma_first_word(l);
                assert(packages_of_lines(ls) == pd + seq![p]);
                assert forall|i: int| 0 <= i < pd.len() implies packages_of_lines(ls)[i]
                    == pd[i] by {}
                assert(packages_of_lines(ls)[pd.len() as int] == p);
            },
            None => {
                assert(packages_of_lines(ls) == pd);
            },
        }
    }
}

/// Every package that `brew outdated` output names is marked as a cask
/// exactly when the output was the one for casks.
pub proof fn law_outdated_kind(text: Seq<char>, is_cask: bool)
    ensures
        forall|i: int|
            0 <= i < outdated_list(text, is_cask).len() ==> (#[trigger] outdated_list(
                text,
                is_cask,
            )[i]).is_cask == is_cask,
{
    lemma_outdated_lines(lines(text), is_cask);
}

proof fn lemma_outdated_lines(ls: Seq<Seq<char>>, is_cask: bool)
    ensures
        forall|i: int|
            0 <= i < outdated_of_lines(ls, is_cask).len() ==> (#[trigger] outdated_of_lines(
                ls,
                is_cask,
            )[i]).is_cask == is_cask,
    decreases ls.len(),
{
    if ls.len() > 0 {
        let d = ls.drop_last();
        lemma_outdated_lines(d, is_cask);
        let od = outdated_of_lines(d, is_cask);
        match outdated_of_line(ls.last(), is_cask) {
            Some(p) => {
                assert(outdated_of_lines(ls, is_cask) == od + seq![p]);
                assert forall|i: int| 0 <= i < od.len() implies outdated_of_lines(ls, is_cask)[i]
                    == od[i] by {}
                assert(outdated_of_lines(ls, is_cask)[od.len() as int] == p);
            },
            None => {
                assert(outdated_of_lines(ls, is_cask) == od);
            },
        }
    }
}

/// `brew search` results are never blank and never a `==>` heading.
pub proof fn law_search_results_are_names(text: Seq<char>)
    ensures
        forall|i: int|
            0 <= i < search_results(text).len() ==> {
                &&& (#[trigger] search_results(text)[i]).len() > 0
                &&& !starts_with(search_results(text)[i], section_marker())
            },
{
    lemma_search_lines(lines(text));
}

proof fn lemma_search_lines(ls: Seq<Seq<char>>)
    ensures
        forall|i: int|
            0 <= i < search_results_of_lines(ls).len() ==> {
                &&& (#[trigger] search_results_of_lines(ls)[i]).len() > 0
                &&& !starts_with(search_results_of_lines(ls)[i], section_marker())
            },
    decreases ls.len(),
{
    if ls.len() > 0 {
        let d = ls.drop_last();
        lemma_search_lines(d);
        let sd = search_results_of_lines(d);
        match search_result_of_line(ls.last()) {
            Some(p) => {
                assert(search_results_of_lines(ls) == sd + seq![p]);
                assert forall|i: int| 0 <= i < sd.len() implies search_results_of_lines(ls)[i]
                    == sd[i] by {}
                assert(search_results_of_lines(ls)[sd.len() as int] == p);
            },
            None => {
                assert(search_results_of_lines(ls) == sd);
            },
        }
    }
}

// ---------------------------------------------------------------------
// Blank lines
// ---------------------------------------------------------------------

/// The lines of two texts, the first of which is empty or ends with a
/// line break, are the lines of the first followed by those of the second.
proof fn lemma_lines_concat(s1: Seq<char>, s2: Seq<char>)
    requires
        s1.len() == 0 || s1.last() == '\n',
    ensures
        lines(s1 + s2) == lines(s1) + lines(s2),
    decreases s1.len(),
{
    if s1.len() == 0 {
        assert(s1 + s2 =~= s2);
        assert(lines(s1) + lines(s2) =~= lines(s2));
    } else {
        let s = s1 + s2;
        lemma_find_char(s1, '\n');
        let j = find_char(s1, '\n');
        if j == s1.len() {
            assert(s1[s1.len() - 1] == '\n');
        }
        assert forall|k: int| 0 <= k < j implies s[k] != '\n' by {
            assert(s[k] == s1[k]);
        }
        assert(s[j] == s1[j]);
        lemma_find_char_unique(s, '\n', j);
        let r1 = s1.skip(j + 1);
        if r1.len() > 0 {
            assert(r1.last() == s1.last());
        }
        lemma_lines_concat(r1, s2);
        assert(s.take(j) =~= s1.take(j));
        assert(s.skip(j + 1) =~= r1 + s2);
        assert(lines(s) == seq![strip_cr(s1.take(j))] + lines(r1 + s2));
        assert(lines(s1) == seq![strip_cr(s1.take(j))] + lines(r1));
        assert(seq![strip_cr(s1.take(j))] + (lines(r1) + lines(s2)) =~= (seq![
            strip_cr(s1.take(j)),
        ] + lines(r1)) + lines(s2));
    }
}

/// The packages of the lines `a` followed by the lines `b` are the packages
/// of `a` followed by those of `b`.
proof fn lemma_packages_concat(a: Seq<Seq<char>>, b: Seq<Seq<char>>)
    ensures
        packages_of_lines(a + b) == packages_of_lines(a) + packages_of_lines(b),
    decreases b.len(),
{
    if b.len() == 0 {
        assert(a + b =~= a);
        assert(packages_of_lines(a) + packages_of_lines(b) =~= packages_of_lines(a));
    } else {
        let d = b.drop_last();
        lemma_packages_concat(a, d);
        assert((a + b).drop_last() =~= a + d);
        assert((a + b).last() == b.last());
        match package_of_line(b.last()) {
            Some(p) => {
                assert(packages_of_lines(a) + (packages_of_lines(d) + seq![p]) =~= (
                packages_of_lines(a) + packages_of_lines(d)) + seq![p]);
            },
            None => {},
        }
    }
}

proof fn lemma_all_ws_trim(l: Seq<char>)
    requires
        forall|k: int| 0 <= k < l.len() ==> is_ws(l[k]),
    ensures
        trim(l).len() == 0,
    decreases l.len(),
{
    if l.len() > 0 {
        let d = l.drop_first();
        assert forall|k: int| 0 <= k < d.len() implies is_ws(d[k]) by {
            assert(d[k] == l[k + 1]);
        }
        lemma_all_ws_trim(d);
        assert(trim_start(l) == trim_start(d));
    }
}

/// Blank lines are ignored: a line of whitespace alone, put between two
/// lines of `brew list --versions` output, names no package and changes
/// none of the others.
pub proof fn law_blank_lines_ignored(before: Seq<char>, blank: Seq<char>, after: Seq<char>)
    requires
        before.len() == 0 || before.last() == '\n',
        forall|k: int| 0 <= k < blank.len() ==> is_ws(#[trigger] blank[k]) && blank[k] != '\n',
    ensures
        versions_list(before + blank.push('\n') + after) == versions_list(before + after),
{
    let b = blank.push('\n');
    assert(before + b + after =~= before + (b + after));
    lemma_lines_concat(before, b + after);
    lemma_lines_concat(b, after);
    lemma_lines_concat(before, after);
    assert forall|k: int| 0 <= k < blank.len() implies b[k] != '\n' by {
        assert(b[k] == blank[k]);
    }
    lemma_find_char_unique(b, '\n', blank.len() as int);
    assert(b.take(blank.len() as int) =~= blank);
    assert(b.skip(blank.len() as int + 1) =~= Seq::<char>::empty());
    let e = Seq::<char>::empty();
    assert(lines(e) =~= Seq::<Seq<char>>::empty());
    assert(lines(b) == seq![strip_cr(b.take(blank.len() as int))] + lines(
        b.skip(blank.len() as int + 1),
    ));
    assert(lines(b) =~= seq![strip_cr(blank)]);
    let l = strip_cr(blank);
    assert forall|k: int| 0 <= k < l.len() implies is_ws(l[k]) by {
        assert(l[k] == blank[k]);
    }
    lemma_all_ws_trim(l);
    assert(package_of_line(l) is None);
    let mid = seq![l];
    let none = Seq::<Seq<char>>::empty();
    assert(mid.drop_last() =~= none);
    assert(packages_of_lines(none) =~= Seq::<PackageView>::empty());
    assert(packages_of_lines(mid) =~= Seq::<PackageView>::empty());
    lemma_packages_concat(lines(before), lines(b) + lines(after));
    lemma_packages_concat(lines(b), lines(after));
    lemma_packages_concat(lines(before), lines(after));
    assert(packages_of_lines(lines(b)) + packages_of_lines(lines(after)) =~= packages_of_lines(
        lines(after),
    ));
}

// ---------------------------------------------------------------------
// The brew that is run
// ---------------------------------------------------------------------

/// Every command of every job among `acts` runs the program at `path`.
pub open spec fn jobs_run(acts: Seq<ActionView>, path: Seq<char>) -> bool {
    forall|i: int|
        0 <= i < acts.len() ==> match #[trigger] acts[i] {
            ActionView::Run(cs) => forall|j: int| 0 <= j < cs.len() ==> (#[trigger] cs[j]).program
                == path,
            _ => true,
        }
}

/// The jobs that the user starts on packages, and the maintenance jobs,
/// run the brew that was found, and no other program.
pub proof fn law_jobs_run_found_brew(
    v: ManagerView,
    path: Seq<char>,
    name: Seq<char>,
    pin: bool,
    t: Maintenance,
)
    requires
        v.status.brew_path == Some(path),
    ensures
        jobs_run(on_uninstall_selected(v).1, path),
        jobs_run(on_upgrade_selected_installed(v).1, path),
        jobs_run(on_upgrade_selected_outdated(v).1, path),
        jobs_run(on_install_selected(v).1, path),
        jobs_run(on_install_one(v, name).1, path),
        jobs_run(on_upgrade_all(v).1, path),
        jobs_run(on_pin(v, name, pin).1, path),
        jobs_run(on_maintenance(v, t).1, path),
{
    let cs = uninstall_commands(v, path);
    assert forall|j: int| 0 <= j < cs.len() implies (#[trigger] cs[j]).program == path by {}
}

/// "Uninstall selected" on an idle manager that knows where brew is always
/// starts the "Uninstall" job, even when none of the selected packages is
/// installed any more; the job then holds no command, and its end reports
/// success with no exit code, so the manager is idle again once it ends.
pub proof fn law_uninstall_starts_its_job(v: ManagerView, path: Seq<char>)
    requires
        !v.busy,
        v.selected_installed.len() > 0,
        v.status.brew_path == Some(path),
    ensures
        on_uninstall_selected(v).0 == started(
            ManagerView { selected_installed: seq![], ..v },
            "Uninstall"@,
        ),
        on_uninstall_selected(v).1 == seq![ActionView::Run(uninstall_commands(v, path))],
        uninstall_commands(v, path).len() == 0 ==> job_outcome(seq![]) == (true, None::<i32>),
        uninstall_commands(v, path).len() == 0 ==> !after_event(
            on_uninstall_selected(v).0,
            EventView::Finished { success: true, exit_code: None },
        ).busy,
{
}

/// A job succeeds exactly when all of its commands succeed; when they all
/// do, it ends as its last command ended, and a job of no commands ends
/// with success and no exit code.
pub proof fn law_job_outcome(rs: Seq<(bool, Option<i32>)>)
    ensures
        rs.len() == 0 ==> job_outcome(rs) == (true, None::<i32>),
        job_outcome(rs).0 <==> (forall|i: int| 0 <= i < rs.len() ==> (#[trigger] rs[i]).0),
        rs.len() > 0 && (forall|i: int| 0 <= i < rs.len() ==> (#[trigger] rs[i]).0) ==> job_outcome(
            rs,
        ) == rs.last(),
    decreases rs.len(),
{
    if rs.len() > 1 && rs[0].0 {
        let d = rs.drop_first();
        law_job_outcome(d);
        assert forall|i: int| 0 <= i < d.len() implies d[i] == rs[i + 1] by {}
        if forall|i: int| 0 <= i < d.len() ==> (#[trigger] d[i]).0 {
            assert forall|i: int| 0 <= i < rs.len() implies (#[trigger] rs[i]).0 by {
                if i > 0 {
                    assert(rs[i] == d[i - 1]);
                }
            }
        }
        if !(forall|i: int| 0 <= i < d.len() ==> (#[trigger] d[i]).0) {
            let k = choose|k: int| 0 <= k < d.len() && !(#[trigger] d[k]).0;
            assert(!rs[k + 1].0);
        }
        assert(d.last() == rs.last());
    } else if rs.len() > 1 {
        assert(!rs[0].0);
    }
}

// ---------------------------------------------------------------------
// The parsers, line by line
// ---------------------------------------------------------------------

proof fn lemma_outdated_concat(a: Seq<Seq<char>>, b: Seq<Seq<char>>, is_cask: bool)
    ensures
        outdated_of_lines(a + b, is_cask) == outdated_of_lines(a, is_cask) + outdated_of_lines(
            b,
            is_cask,
        ),
    decreases b.len(),
{
    if b.len() == 0 {
        assert(a + b =~= a);
        assert(outdated_of_lines(a, is_cask) + outdated_of_lines(b, is_cask) =~= outdated_of_lines(
            a,
            is_cask,
        ));
    } else {
        let d = b.drop_last();
        lemma_outdated_concat(a, d, is_cask);
        assert((a + b).drop_last() =~= a + d);
        assert((a + b).last() == b.last());
        match outdated_of_line(b.last(), is_cask) {
            Some(p) => {
                assert(outdated_of_lines(a, is_cask) + (outdated_of_lines(d, is_cask) + seq![p])
                    =~= (outdated_of_lines(a, is_cask) + outdated_of_lines(d, is_cask)) + seq![p]);
            },
            None => {},
        }
    }
}

/// `brew list --versions` output read in two parts cut at a line break
/// gives the packages of the first part followed by those of the second.
pub proof fn law_versions_list_concat(s1: Seq<char>, s2: Seq<char>)
    requires
        s1.len() == 0 || s1.last() == '\n',
    ensures
        versions_list(s1 + s2) == versions_list(s1) + versions_list(s2),
{
    lemma_lines_concat(s1, s2);
    lemma_packages_concat(lines(s1), lines(s2));
}

/// `brew outdated` output read in two parts cut at a line break gives the
/// packages of the first part followed by those of the second.
pub proof fn law_outdated_list_concat(s1: Seq<char>, s2: Seq<char>, is_cask: bool)
    requires
        s1.len() == 0 || s1.last() == '\n',
    ensures
        outdated_list(s1 + s2, is_cask) == outdated_list(s1, is_cask) + outdated_list(s2, is_cask),
{
    lemma_lines_concat(s1, s2);
    lemma_outdated_concat(lines(s1), lines(s2), is_cask);
}

/// The lines of one line `l` followed by a line break: `l`, without a
/// carriage return before the break.
proof fn lemma_single_line(l: Seq<char>)
    requires
        forall|k: int| 0 <= k < l.len() ==> #[trigger] l[k] != '\n',
    ensures
        lines(l.push('\n')) == seq![strip_cr(l)],
{
    let b = l.push('\n');
    assert forall|k: int| 0 <= k < l.len() implies b[k] != '\n' by {
        assert(b[k] == l[k]);
    }
    lemma_find_char_unique(b, '\n', l.len() as int);
    assert(b.take(l.len() as int) =~= l);
    let e = Seq::<char>::empty();
    assert(b.skip(l.len() as int + 1) =~= e);
    assert(lines(e) =~= Seq::<Seq<char>>::empty());
    assert(lines(b) == seq![strip_cr(b.take(l.len() as int))] + lines(b.skip(l.len() as int + 1)));
    assert(lines(b) =~= seq![strip_cr(l)]);
}

/// One line of `brew list --versions` output, ended by a line break,
/// names the package that the line names, or none when it is blank.
pub proof fn law_versions_list_single_line(l: Seq<char>)
    requires
        forall|k: int| 0 <= k < l.len() ==> #[trigger] l[k] != '\n',
    ensures
        versions_list(l.push('\n')) == match package_of_line(strip_cr(l)) {
            Some(p) => seq![p],
            None => Seq::<PackageView>::empty(),
        },
{
    lemma_single_line(l);
    let ls = seq![strip_cr(l)];
    let none = Seq::<Seq<char>>::empty();
    assert(ls.drop_last() =~= none);
    assert(packages_of_lines(none) =~= Seq::<PackageView>::empty());
    match package_of_line(strip_cr(l)) {
        Some(p) => {
            assert(Seq::<PackageView>::empty() + seq![p] =~= seq![p]);
        },
        None => {},
    }
}

/// One line of `brew outdated` output, ended by a line break, names the
/// package that the line names, or none.
pub proof fn law_outdated_list_single_line(l: Seq<char>, is_cask: bool)
    requires
        forall|k: int| 0 <= k < l.len() ==> #[trigger] l[k] != '\n',
    ensures
        outdated_list(l.push('\n'), is_cask) == match outdated_of_line(strip_cr(l), is_cask) {
            Some(p) => seq![p],
            None => Seq::<OutdatedView>::empty(),
        },
{
    lemma_single_line(l);
    let ls = seq![strip_cr(l)];
    let none = Seq::<Seq<char>>::empty();
    assert(ls.drop_last() =~= none);
    assert(outdated_of_lines(none, is_cask) =~= Seq::<OutdatedView>::empty());
    match outdated_of_line(strip_cr(l), is_cask) {
        Some(p) => {
            assert(Seq::<OutdatedView>::empty() + seq![p] =~= seq![p]);
        },
        None => {},
    }
}


// ---------------------------------------------------------------------
// Reading back what was written
// ---------------------------------------------------------------------

/// A word: not empty, and without whitespace.
pub open spec fn is_word(w: Seq<char>) -> bool {
    w.len() > 0 && forall|k: int| 0 <= k < w.len() ==> !is_ws(#[trigger] w[k])
}

/// Each of `ws` with one space before it.
pub open spec fn spaced(ws: Seq<Seq<char>>) -> Seq<char>
    decreases ws.len(),
{
    if ws.len() == 0 {
        seq![]
    } else {
        seq![' '] + ws[0] + spaced(ws.drop_first())
    }
}

/// The line that `brew list --versions` prints for the package `name`
/// installed in the versions `versions`: the name, then each version after
/// a space.
pub open spec fn versions_line(name: Seq<char>, versions: Seq<Seq<char>>) -> Seq<char> {
    name + spaced(versions)
}

/// The output of `brew list --versions` for the packages `pkgs`, each a
/// name and its versions, one line each, every line ended by a line break.
pub open spec fn versions_text(pkgs: Seq<(Seq<char>, Seq<Seq<char>>)>) -> Seq<char>
    decreases pkgs.len(),
{
    if pkgs.len() == 0 {
        seq![]
    } else {
        versions_text(pkgs.drop_last()) + versions_line(pkgs.last().0, pkgs.last().1).push('\n')
    }
}

/// The package that `versions_list` gives for a name and its versions.
pub open spec fn listed_package(p: (Seq<char>, Seq<Seq<char>>)) -> PackageView {
    PackageView { name: p.0, version: join(p.1, seq![',', ' ']) }
}

/// Every character of `spaced(ws)` is a space or not whitespace at all.
proof fn lemma_spaced_chars(ws: Seq<Seq<char>>)
    requires
        forall|i: int| 0 <= i < ws.len() ==> is_word(#[trigger] ws[i]),
    ensures
        forall|k: int|
            0 <= k < spaced(ws).len() ==> #[trigger] spaced(ws)[k] == ' ' || !is_ws(spaced(ws)[k]),
    decreases ws.len(),
{
    if ws.len() > 0 {
        let d = ws.drop_first();
        assert forall|i: int| 0 <= i < d.len() implies is_word(#[trigger] d[i]) by {
            assert(d[i] == ws[i + 1]);
        }
        lemma_spaced_chars(d);
        let w0 = ws[0];
        assert(is_word(w0));
        let sp = spaced(ws);
        assert(sp == seq![' '] + w0 + spaced(d));
        assert forall|k: int| 0 <= k < sp.len() implies #[trigger] sp[k] == ' ' || !is_ws(
            sp[k],
        ) by {
            if 1 <= k < 1 + w0.len() {
                assert(sp[k] == w0[k - 1]);
            } else if k >= 1 + w0.len() {
                assert(sp[k] == spaced(d)[k - 1 - w0.len()]);
            }
        }
    }
}

/// The words of a word followed by words each after a space are those
/// words.
proof fn lemma_words_spaced(n: Seq<char>, ws: Seq<Seq<char>>)
    requires
        is_word(n),
        forall|i: int| 0 <= i < ws.len() ==> is_word(#[trigger] ws[i]),
    ensures
        words(n + spaced(ws)) == seq![n] + ws,
    decreases ws.len(),
{
    let l = n + spaced(ws);
    lemma_trim_start_skip(l, 0);
    assert(l.skip(0) =~= l);
    assert forall|k: int| 0 <= k < n.len() implies !is_ws(l[k]) by {
        assert(l[k] == n[k]);
    }
    if ws.len() == 0 {
        assert(l =~= n);
        lemma_find_ws_unique(l, n.len() as int);
        assert(l.take(n.len() as int) =~= n);
        let e = l.skip(n.len() as int);
        assert(e =~= Seq::<char>::empty());
        assert(trim_start(e) =~= e);
        assert(words(e) =~= Seq::<Seq<char>>::empty());
        assert(words(l) == seq![l.take(n.len() as int)] + words(e));
        assert(seq![n] + ws =~= seq![n]);
        assert(words(l) =~= seq![n]);
    } else {
        let d = ws.drop_first();
        let w0 = ws[0];
        assert(is_word(w0));
        assert forall|i: int| 0 <= i < d.len() implies is_word(#[trigger] d[i]) by {
            assert(d[i] == ws[i + 1]);
        }
        assert(spaced(ws) == seq![' '] + w0 + spaced(d));
        assert(l[n.len() as int] == ' ');
        lemma_find_ws_unique(l, n.len() as int);
        assert(l.take(n.len() as int) =~= n);
        let rest = l.skip(n.len() as int);
        assert(rest =~= seq![' '] + (w0 + spaced(d)));
        let x = w0 + spaced(d);
        assert(rest[0] == ' ');
        assert(rest[1] == w0[0]);
        lemma_trim_start_skip(rest, 1);
        assert(rest.skip(1) =~= x);
        lemma_trim_start_skip(x, 0);
        assert(x.skip(0) =~= x);
        assert(trim_start(rest) == trim_start(x));
        assert(words(rest) == words(x));
        lemma_words_spaced(w0, d);
        assert(words(l) == seq![n] + words(rest));
        assert(seq![n] + (seq![w0] + d) =~= seq![n] + ws);
    }
}

/// One line of `brew list --versions`, written from a name and its
/// versions, reads back as that name with the versions joined by ", ".
proof fn lemma_versions_line(name: Seq<char>, versions: Seq<Seq<char>>)
    requires
        is_word(name),
        forall|i: int| 0 <= i < versions.len() ==> is_word(#[trigger] versions[i]),
    ensures
        versions_list(versions_line(name, versions).push('\n')) == seq![
            listed_package((name, versions)),
        ],
{
    let l = versions_line(name, versions);
    lemma_spaced_chars(versions);
    let sp = spaced(versions);
    assert forall|k: int| 0 <= k < l.len() implies (#[trigger] l[k] == ' ' || !is_ws(l[k])) by {
        if k < name.len() {
            assert(l[k] == name[k]);
        } else {
            assert(l[k] == sp[k - name.len()]);
        }
    }
    assert forall|k: int| 0 <= k < l.len() implies #[trigger] l[k] != '\n' by {
        assert(l[k] == ' ' || !is_ws(l[k]));
    }
    assert(l.last() == ' ' || !is_ws(l.last())) by {
        assert(l[l.len() - 1] == ' ' || !is_ws(l[l.len() - 1]));
    }
    assert(strip_cr(l) == l);
    law_versions_list_single_line(l);
    assert(l[0] == name[0]);
    let b = lemma_trim_end_cut(l, 1);
    lemma_trim_start_skip(l, 0);
    assert(l.skip(0) =~= l);
    assert(trim(l).len() > 0);
    lemma_words_spaced(name, versions);
    let ws = words(l);
    assert(ws.skip(1) =~= versions);
}

/// Keeping what comes before the whitespace that ends `s`, where the
/// character before `m` is not whitespace, keeps at least `m` characters.
proof fn lemma_trim_end_cut(s: Seq<char>, m: int) -> (b: int)
    requires
        0 < m <= s.len(),
        !is_ws(s[m - 1]),
    ensures
        m <= b <= s.len(),
        trim_end(s) == s.take(b),
        forall|k: int| b <= k < s.len() ==> is_ws(#[trigger] s[k]),
    decreases s.len(),
{
    if is_ws(s.last()) {
        let d = s.drop_last();
        let b = lemma_trim_end_cut(d, m);
        assert(d.take(b) =~= s.take(b));
        assert forall|k: int| b <= k < s.len() implies is_ws(#[trigger] s[k]) by {
            if k < d.len() {
                assert(s[k] == d[k]);
            }
        }
        b
    } else {
        assert(s.take(s.len() as int) =~= s);
        s.len() as int
    }
}

/// `brew list --versions` output written from names and their versions,
/// one line each, reads back as those names, each with its versions
/// joined by ", ", in order.
pub proof fn law_versions_round_trip(pkgs: Seq<(Seq<char>, Seq<Seq<char>>)>)
    requires
        forall|i: int| 0 <= i < pkgs.len() ==> is_word(#[trigger] pkgs[i].0),
        forall|i: int, j: int|
            0 <= i < pkgs.len() && 0 <= j < pkgs[i].1.len() ==> is_word(#[trigger] pkgs[i].1[j]),
    ensures
        versions_list(versions_text(pkgs)) == pkgs.map_values(
            |p: (Seq<char>, Seq<Seq<char>>)| listed_package(p),
        ),
    decreases pkgs.len(),
{
    if pkgs.len() == 0 {
        let e = Seq::<char>::empty();
        assert(lines(e) =~= Seq::<Seq<char>>::empty());
        assert(packages_of_lines(lines(e)) =~= Seq::<PackageView>::empty());
        assert(pkgs.map_values(|p: (Seq<char>, Seq<Seq<char>>)| listed_package(p))
            =~= Seq::<PackageView>::empty());
    } else {
        let d = pkgs.drop_last();
        assert forall|i: int| 0 <= i < d.len() implies is_word(#[trigger] d[i].0) by {
            assert(d[i] == pkgs[i]);
        }
        assert forall|i: int, j: int| 0 <= i < d.len() && 0 <= j < d[i].1.len() implies is_word(
            #[trigger] d[i].1[j],
        ) by {
            assert(d[i] == pkgs[i]);
            assert(is_word(pkgs[i].1[j]));
        }
        law_versions_round_trip(d);
        let last = pkgs.last();
        assert(last == pkgs[pkgs.len() - 1]);
        assert(is_word(last.0));
        assert forall|j: int| 0 <= j < last.1.len() implies is_word(#[trigger] last.1[j]) by {
            assert(is_word(pkgs[pkgs.len() - 1].1[j]));
        }
        lemma_versions_line(last.0, last.1);
        let head = versions_text(d);
        if head.len() > 0 {
            lemma_versions_text_ends(d);
        }
        law_versions_list_concat(head, versions_line(last.0, last.1).push('\n'));
        assert(pkgs.map_values(|p: (Seq<char>, Seq<Seq<char>>)| listed_package(p)) =~= d.map_values(
            |p: (Seq<char>, Seq<Seq<char>>)| listed_package(p),
        ) + seq![listed_package(last)]);
    }
}

proof fn lemma_versions_text_ends(pkgs: Seq<(Seq<char>, Seq<Seq<char>>)>)
    requires
        pkgs.len() > 0,
    ensures
        versions_text(pkgs).last() == '\n',
{
    let d = pkgs.drop_last();
    let l = versions_line(pkgs.last().0, pkgs.last().1).push('\n');
    assert((versions_text(d) + l).last() == l.last());
}


/// The line that `brew outdated --verbose` prints for the package `name`
/// at version `current`, compared by `op` (`<` or `!=`) with the version
/// `latest`, followed by `suffix` (such as ` [pinned at 1.0]`).
pub open spec fn outdated_line(
    name: Seq<char>,
    current: Seq<char>,
    op: Seq<char>,
    latest: Seq<char>,
    suffix: Seq<char>,
) -> Seq<char> {
    name + seq![' ', '('] + current + seq![')', ' '] + op + seq![' '] + latest + suffix
}

/// Where `m`, which holds no whitespace, occurs in `full` it occurs before
/// the whitespace that ends `full`.
proof fn lemma_contains_before_ws(full: Seq<char>, b: int, m: Seq<char>)
    requires
        0 <= b <= full.len(),
        forall|k: int| b <= k < full.len() ==> is_ws(#[trigger] full[k]),
        m.len() > 0,
        forall|k: int| 0 <= k < m.len() ==> !is_ws(#[trigger] m[k]),
    ensures
        contains_seq(full.take(b), m) == contains_seq(full, m),
{
    let t = full.take(b);
    if contains_seq(t, m) {
        let i = choose|i: int| 0 <= i <= t.len() - m.len() && #[trigger] t.subrange(i, i + m.len()) == m;
        assert(full.subrange(i, i + m.len()) =~= t.subrange(i, i + m.len()));
    }
    if contains_seq(full, m) {
        let i = choose|i: int|
            0 <= i <= full.len() - m.len() && #[trigger] full.subrange(i, i + m.len()) == m;
        if i + m.len() > b {
            let j = i + m.len() - 1;
            assert(full.subrange(i, i + m.len())[m.len() - 1] == full[j]);
            assert(!is_ws(m[m.len() - 1]));
        }
        assert(t.subrange(i, i + m.len()) =~= full.subrange(i, i + m.len()));
    }
}

/// `trim(n) == n` for a non-empty `n` means that `n` neither begins nor
/// ends with whitespace.
proof fn lemma_trimmed_ends(n: Seq<char>)
    requires
        n.len() > 0,
        trim(n) == n,
    ensures
        !is_ws(n[0]),
        !is_ws(n.last()),
{
    lemma_trim_start_len(n);
    lemma_trim_end_len(trim_start(n));
    if is_ws(n[0]) {
        lemma_trim_start_len(n.drop_first());
        assert(false);
    }
    assert(trim_start(n) == n);
    if is_ws(n.last()) {
        lemma_trim_end_len(n.drop_last());
        assert(false);
    }
}

/// The parts of an outdated line, by position.
proof fn lemma_outdated_line_parts(
    name: Seq<char>,
    current: Seq<char>,
    op: Seq<char>,
    latest: Seq<char>,
    suffix: Seq<char>,
)
    ensures
        ({
            let l = outdated_line(name, current, op, latest, suffix);
            let nl = name.len() as int;
            let pe = nl + 2 + current.len();
            &&& l.len() == pe + 3 + op.len() + latest.len() + suffix.len()
            &&& l.take(nl) == name
            &&& l[nl] == ' '
            &&& l[nl + 1] == '('
            &&& l.subrange(nl + 2, pe) == current
            &&& l[pe] == ')'
            &&& l.skip(pe + 1) == seq![' '] + op + seq![' '] + (latest + suffix)
        }),
{
    let l = outdated_line(name, current, op, latest, suffix);
    let nl = name.len() as int;
    let pe = nl + 2 + current.len();
    let a = name + seq![' ', '('] + current;
    assert(l == a + seq![')', ' '] + op + seq![' '] + latest + suffix);
    assert(l.take(nl) =~= name);
    assert(l.subrange(nl + 2, pe) =~= current);
    assert(l.skip(pe + 1) =~= seq![' '] + op + seq![' '] + (latest + suffix));
}

/// What follows the closing parenthesis, a space, the comparison and a
/// space, gives the text after them once the comparison is taken off.
proof fn lemma_after_comparison_of(op: Seq<char>, x: Seq<char>)
    requires
        op == seq!['<'] || op == seq!['!', '='],
        x.len() > 0,
        !is_ws(x[0]),
    ensures
        after_comparison(seq![' '] + op + seq![' '] + x) == x,
{
    let r = seq![' '] + op + seq![' '] + x;
    let ol = op.len() as int;
    assert(r[0] == ' ');
    assert(r[1] == op[0]);
    lemma_trim_start_skip(r, 1);
    let y = r.skip(1);
    assert(y =~= op + seq![' '] + x);
    let ne = seq!['!', '='];
    let lt = seq!['<'];
    let z = seq![' '] + x;
    assert(z[0] == ' ');
    assert(z.take(2)[0] != ne[0]);
    assert(!starts_with(z, ne));
    assert(z.take(1)[0] != lt[0]);
    assert(!starts_with(z, lt));
    assert(strip_prefixes(z, ne) == z);
    assert(strip_prefixes(z, lt) == z);
    if op == ne {
        assert(y.take(2) =~= ne);
        assert(y.skip(2) =~= z);
        assert(strip_prefixes(y, ne) == z);
    } else {
        assert(y[0] == '<');
        assert(!starts_with(y, ne));
        assert(strip_prefixes(y, ne) == y);
        assert(y.take(1) =~= lt);
        assert(y.skip(1) =~= z);
        assert(strip_prefixes(y, lt) == z);
    }
    lemma_trim_start_skip(z, 1);
    assert(z.skip(1) =~= x);
}

/// The first word of a word followed by nothing, or by text that begins
/// with whitespace, is that word.
proof fn lemma_first_word_of(w: Seq<char>, z: Seq<char>)
    requires
        is_word(w),
        z.len() == 0 || is_ws(z[0]),
    ensures
        words(w + z).len() > 0,
        words(w + z)[0] == w,
{
    let x = w + z;
    let n = w.len() as int;
    assert forall|k: int| 0 <= k < n implies !is_ws(x[k]) by {
        assert(x[k] == w[k]);
    }
    if n < x.len() {
        assert(x[n] == z[0]);
    }
    lemma_find_ws_unique(x, n);
    lemma_trim_start_skip(x, 0);
    assert(x.skip(0) =~= x);
    assert(words(x) == seq![x.take(n)] + words(x.skip(n)));
    assert(x.take(n) =~= w);
}

/// No character of an outdated line breaks it; it ends in neither a
/// carriage return nor whitespace before its latest version.
proof fn lemma_outdated_line_chars(
    name: Seq<char>,
    current: Seq<char>,
    op: Seq<char>,
    latest: Seq<char>,
    suffix: Seq<char>,
)
    requires
        forall|k: int| 0 <= k < name.len() ==> #[trigger] name[k] != '\n',
        forall|k: int| 0 <= k < current.len() ==> #[trigger] current[k] != '\n',
        op == seq!['<'] || op == seq!['!', '='],
        is_word(latest),
        forall|k: int| 0 <= k < suffix.len() ==> #[trigger] suffix[k] != '\n' && suffix[k] != '\r',
    ensures
        ({
            let l = outdated_line(name, current, op, latest, suffix);
            &&& forall|k: int| 0 <= k < l.len() ==> #[trigger] l[k] != '\n'
            &&& l.last() != '\r'
        }),
{
    lemma_outdated_line_parts(name, current, op, latest, suffix);
    let l = outdated_line(name, current, op, latest, suffix);
    let nl = name.len() as int;
    let pe = nl + 2 + current.len();
    let tail = l.skip(pe + 1);
    let ls = latest + suffix;
    let ol = op.len() as int;
    assert forall|k: int| 0 <= k < ls.len() implies #[trigger] ls[k] != '\n' && ls[k] != '\r'
        || (k < latest.len() && !is_ws(ls[k])) by {
        if k < latest.len() {
            assert(ls[k] == latest[k]);
        } else {
            assert(ls[k] == suffix[k - latest.len()]);
        }
    }
    assert forall|k: int| 0 <= k < tail.len() implies #[trigger] tail[k] != '\n' by {
        if 2 + ol <= k {
            assert(tail[k] == ls[k - 2 - ol]);
        } else if 1 <= k < 1 + ol {
            assert(tail[k] == op[k - 1]);
        }
    }
    assert forall|k: int| 0 <= k < l.len() implies #[trigger] l[k] != '\n' by {
        if k < nl {
            assert(l[k] == l.take(nl)[k]);
        } else if nl + 2 <= k < pe {
            assert(l[k] == l.subrange(nl + 2, pe)[k - nl - 2]);
        } else if k > pe {
            assert(l[k] == tail[k - pe - 1]);
        }
    }
    assert(l.last() == ls.last()) by {
        assert(l.last() == tail[tail.len() - 1]);
    }
    assert(ls.last() == ls[ls.len() - 1]);
}

/// Before the closing parenthesis that follows the current version, the
/// trimmed line holds one `(`, the one after the name, and no `)`.
proof fn lemma_outdated_parens(
    l: Seq<char>,
    t: Seq<char>,
    name: Seq<char>,
    current: Seq<char>,
    b: int,
)
    requires
        forall|k: int| 0 <= k < name.len() ==> #[trigger] name[k] != '(' && name[k] != ')',
        forall|k: int| 0 <= k < current.len() ==> #[trigger] current[k] != ')',
        name.len() as int + 2 + current.len() < b <= l.len(),
        t == l.take(b),
        l.take(name.len() as int) == name,
        l[name.len() as int] == ' ',
        l[name.len() as int + 1] == '(',
        l.subrange(name.len() as int + 2, name.len() as int + 2 + current.len()) == current,
        l[name.len() as int + 2 + current.len()] == ')',
    ensures
        forall|k: int| 0 <= k < name.len() as int + 1 ==> t[k] != '(',
        t[name.len() as int + 1] == '(',
        forall|k: int| 0 <= k < name.len() as int + 2 + current.len() ==> t[k] != ')',
        t[name.len() as int + 2 + current.len()] == ')',
{
    let nl = name.len() as int;
    let pe = nl + 2 + current.len();
    assert forall|k: int| 0 <= k < pe implies t[k] == l[k] by {}
    assert forall|k: int| 0 <= k < nl implies t[k] == name[k] by {
        assert(l.take(nl)[k] == l[k]);
    }
    assert forall|k: int| nl + 2 <= k < pe implies t[k] == current[k - nl - 2] by {
        assert(l.subrange(nl + 2, pe)[k - nl - 2] == l[k]);
    }
    assert forall|k: int| 0 <= k < nl + 1 implies t[k] != '(' by {
        if k < nl {
            assert(t[k] == name[k]);
        }
    }
    assert forall|k: int| 0 <= k < pe implies t[k] != ')' by {
        if k < nl {
            assert(t[k] == name[k]);
        } else if nl + 2 <= k {
            assert(t[k] == current[k - nl - 2]);
        }
    }
}

/// One line of `brew outdated --verbose`, written from a package's name,
/// its current version, the comparison, its latest version and what
/// follows, reads back as that package: its name, its current and latest
/// version, pinned exactly when the text holds `[pinned`.
#[verifier::spinoff_prover]
#[verifier::rlimit(40)]
pub proof fn law_outdated_round_trip(
    name: Seq<char>,
    current: Seq<char>,
    op: Seq<char>,
    latest: Seq<char>,
    suffix: Seq<char>,
    is_cask: bool,
)
    requires
        name.len() > 0,
        trim(name) == name,
        forall|k: int|
            0 <= k < name.len() ==> #[trigger] name[k] != '(' && name[k] != ')' && name[k] != '\n',
        forall|k: int| 0 <= k < current.len() ==> #[trigger] current[k] != ')' && current[k] != '\n',
        op == seq!['<'] || op == seq!['!', '='],
        is_word(latest),
        suffix.len() == 0 || suffix[0] == ' ',
        forall|k: int| 0 <= k < suffix.len() ==> #[trigger] suffix[k] != '\n' && suffix[k] != '\r',
    ensures
        outdated_list(outdated_line(name, current, op, latest, suffix).push('\n'), is_cask)
            == seq![
            OutdatedView {
                name,
                current,
                latest,
                pinned: contains_seq(
                    outdated_line(name, current, op, latest, suffix).push('\n'),
                    pinned_marker(),
                ),
                is_cask,
            },
        ],
{
    let l = outdated_line(name, current, op, latest, suffix);
    lemma_outdated_line_parts(name, current, op, latest, suffix);
    lemma_outdated_line_chars(name, current, op, latest, suffix);
    let nl = name.len() as int;
    let ps = nl + 1;
    let pe = nl + 2 + current.len();
    let ol = op.len() as int;
    let vs = pe + 3 + ol;
    let ll = latest.len() as int;
    let ls = latest + suffix;
    let tail = l.skip(pe + 1);
    assert(strip_cr(l) == l);
    law_outdated_list_single_line(l, is_cask);
    lemma_trimmed_ends(name);
    // The trimmed line: nothing leads, and only whitespace follows its end.
    assert(l[0] == l.take(nl)[0]);
    lemma_trim_start_skip(l, 0);
    assert(l.skip(0) =~= l);
    assert(l[vs + ll - 1] == tail[2 + ol + ll - 1]);
    assert(tail[2 + ol + ll - 1] == ls[ll - 1]);
    assert(!is_ws(l[vs + ll - 1]));
    let b = lemma_trim_end_cut(l, vs + ll);
    let t = l.take(b);
    assert(trim(l) == t);
    // The parentheses.
    lemma_outdated_parens(l, t, name, current, b);
    lemma_find_char_unique(t, '(', ps);
    lemma_find_char_unique(t, ')', pe);
    // The name.
    let h = t.take(ps);
    assert(h =~= name.push(' '));
    lemma_trim_start_skip(h, 0);
    assert(h.skip(0) =~= h);
    lemma_trim_end_take(h, nl);
    assert(h.take(nl) =~= name);
    // The current version.
    assert(t.subrange(ps + 1, pe) =~= l.subrange(nl + 2, pe));
    // The latest version.
    let cut = b - vs;
    let w = ls.take(cut);
    assert(t.skip(pe + 1) =~= seq![' '] + op + seq![' '] + w);
    assert(w =~= latest + suffix.take(cut - ll));
    assert(w[0] == latest[0]);
    lemma_after_comparison_of(op, w);
    if cut > ll {
        assert(suffix.take(cut - ll)[0] == suffix[0]);
    }
    lemma_first_word_of(latest, suffix.take(cut - ll));
    // The pin marker.
    let m = pinned_marker();
    assert forall|k: int| 0 <= k < m.len() implies !is_ws(#[trigger] m[k]) by {}
    let full = l.push('\n');
    assert(full.take(b) =~= t);
    assert forall|k: int| b <= k < full.len() implies is_ws(#[trigger] full[k]) by {
        if k < l.len() {
            assert(full[k] == l[k]);
        }
    }
    lemma_contains_before_ws(full, b, m);
}


// ---------------------------------------------------------------------
// What the lists, the jobs and the filter hold
// ---------------------------------------------------------------------

/// A refreshed list replaces the one the manager held, whatever it held:
/// after the event the manager holds exactly the list that came, and the
/// other lists are as they were.
pub proof fn law_lists_replaced(
    v: ManagerView,
    p: Seq<PackageView>,
    o: Seq<OutdatedView>,
    r: Seq<Seq<char>>,
)
    ensures
        after_event(v, EventView::InstalledFormulae(p)).installed_formulae == p,
        after_event(v, EventView::InstalledFormulae(p)).installed_casks == v.installed_casks,
        after_event(v, EventView::InstalledCasks(p)).installed_casks == p,
        after_event(v, EventView::InstalledCasks(p)).installed_formulae == v.installed_formulae,
        after_event(v, EventView::Outdated(o)).outdated == o,
        after_event(v, EventView::SearchResults(r)).search_results == r,
        after_event(v, EventView::InstalledFormulae(p)).log == v.log,
        after_event(v, EventView::InstalledCasks(p)).log == v.log,
        after_event(v, EventView::Outdated(o)).log == v.log,
        after_event(v, EventView::SearchResults(r)).log == v.log,
{
}

/// `names` names, once each, exactly the names of `sel` that are among
/// `pool`.
pub open spec fn names_exactly(
    names: Seq<Seq<char>>,
    sel: Seq<Seq<char>>,
    pool: Seq<Seq<char>>,
) -> bool {
    &&& names.no_duplicates()
    &&& forall|x: Seq<char>| #[trigger] names.contains(x) <==> sel.contains(x) && pool.contains(x)
}

/// `brew uninstall <formulae>` when there are any, then
/// `brew uninstall --cask <casks>` when there are any, for the brew at
/// `path`.
pub open spec fn uninstall_job(path: Seq<char>, f: Seq<Seq<char>>, c: Seq<Seq<char>>) -> Seq<
    CommandView,
> {
    (if f.len() > 0 {
        seq![CommandView { program: path, args: seq!["uninstall"@] + f, envs: seq![] }]
    } else {
        seq![]
    }) + (if c.len() > 0 {
        seq![CommandView { program: path, args: seq!["uninstall"@, "--cask"@] + c, envs: seq![] }]
    } else {
        seq![]
    })
}

proof fn lemma_kept(sel: Seq<Seq<char>>, pool: Seq<Seq<char>>)
    requires
        sel.no_duplicates(),
    ensures
        names_exactly(kept(sel, pool), sel, pool),
    decreases sel.len(),
{
    if sel.len() > 0 {
        let d = sel.drop_last();
        let a = sel.last();
        assert(d.no_duplicates()) by {
            assert forall|i: int, j: int| 0 <= i < d.len() && 0 <= j < d.len() && i != j implies d[i]
                != d[j] by {
                assert(d[i] == sel[i] && d[j] == sel[j]);
            }
        }
        lemma_kept(d, pool);
        assert(d.push(a) =~= sel);
        assert forall|x: Seq<char>| sel.contains(x) <==> d.contains(x) || x == a by {
            lemma_push_contains(d, a, x);
        }
        assert(!d.contains(a)) by {
            if d.contains(a) {
                let k = choose|k: int| 0 <= k < d.len() && d[k] == a;
                assert(sel[k] == sel[sel.len() - 1]);
            }
        }
        let kd = kept(d, pool);
        assert(sel.last() == a);
        assert forall|x: Seq<char>| #[trigger] kept(sel, pool).contains(x) <==> sel.contains(x)
            && pool.contains(x) by {
            lemma_push_contains(d, a, x);
            lemma_push_contains(kd, a, x);
            if pool.contains(a) {
                assert(kept(sel, pool) == kd.push(a));
            } else {
                assert(kept(sel, pool) == kd);
            }
        }
        if pool.contains(a) {
            assert(kept(sel, pool) == kd.push(a));
            assert forall|i: int, j: int|
                0 <= i < kd.push(a).len() && 0 <= j < kd.push(a).len() && i != j implies kd.push(
                a,
            )[i] != kd.push(a)[j] by {
                if i == kd.len() {
                    assert(kd.contains(kd[j]));
                } else if j == kd.len() {
                    assert(kd.contains(kd[i]));
                }
            }
        }
    }
}

/// "Uninstall selected" removes exactly the selected packages that are
/// installed: one command for the selected installed formulae, one with
/// `--cask` for the selected installed casks, each name once, each command
/// only when it has a name to remove, all run by the brew that was found.
pub proof fn law_uninstall_removes_selected(v: ManagerView, path: Seq<char>)
    requires
        selection_ok(v.selected_installed),
        !v.busy,
        v.selected_installed.len() > 0,
        v.status.brew_path == Some(path),
    ensures
        exists|f: Seq<Seq<char>>, c: Seq<Seq<char>>|
            #![trigger names_exactly(f, v.selected_installed, names_of(v.installed_formulae)), names_exactly(c, v.selected_installed, names_of(v.installed_casks))]
            names_exactly(f, v.selected_installed, names_of(v.installed_formulae))
                && names_exactly(c, v.selected_installed, names_of(v.installed_casks))
                && on_uninstall_selected(v).1 == seq![ActionView::Run(uninstall_job(path, f, c))],
{
    let f = kept(v.selected_installed, names_of(v.installed_formulae));
    let c = kept(v.selected_installed, names_of(v.installed_casks));
    lemma_kept(v.selected_installed, names_of(v.installed_formulae));
    lemma_kept(v.selected_installed, names_of(v.installed_casks));
    assert(uninstall_commands(v, path) =~= uninstall_job(path, f, c));
}

/// "Install selected" runs one command for the brew that was found:
/// `brew install`, with `--cask` exactly when installing as casks was
/// chosen, followed by the selected names.
pub proof fn law_install_selected_command(v: ManagerView, path: Seq<char>)
    requires
        !v.busy,
        v.selected_search.len() > 0,
        v.status.brew_path == Some(path),
    ensures
        on_install_selected(v).1 == seq![
            ActionView::Run(
                seq![
                    CommandView {
                        program: path,
                        args: (if v.install_as_cask {
                            seq!["install"@, "--cask"@]
                        } else {
                            seq!["install"@]
                        }) + v.selected_search,
                        envs: seq![],
                    },
                ],
            ),
        ],
        !v.selected_search.contains("--cask"@) ==> ((if v.install_as_cask {
            seq!["install"@, "--cask"@]
        } else {
            seq!["install"@]
        }) + v.selected_search).contains("--cask"@) == v.install_as_cask,
{
    let pre = if v.install_as_cask {
        seq!["install"@, "--cask"@]
    } else {
        seq!["install"@]
    };
    let args = pre + v.selected_search;
    assert(on_install_selected(v).1 =~= seq![
        ActionView::Run(seq![CommandView { program: path, args, envs: seq![] }]),
    ]);
    if !v.selected_search.contains("--cask"@) {
        reveal_strlit("install");
        reveal_strlit("--cask");
        assert("install"@.len() != "--cask"@.len());
        if v.install_as_cask {
            assert(args[1] == "--cask"@);
        } else if args.contains("--cask"@) {
            let k = choose|k: int| 0 <= k < args.len() && args[k] == "--cask"@;
            if k == 0 {
                assert(args[0] == "install"@);
            } else {
                assert(v.selected_search[k - 1] == "--cask"@);
            }
        }
    }
}

/// Whether a package passes the filter text `filter`: the filter is empty,
/// or the package's name in lowercase holds the filter in lowercase
/// somewhere.
pub open spec fn name_filter(filter: Seq<char>) -> spec_fn(PackageView) -> bool {
    |p: PackageView|
        lowercase(filter).len() == 0 || contains_seq(lowercase(p.name), lowercase(filter))
}

/// The installed list under a filter text is the packages, in their order,
/// whose lowercase name holds the lowercase filter anywhere (all of them
/// when the filter is empty).
pub proof fn law_filter_by_name(pkgs: Seq<PackageView>, filter: Seq<char>)
    ensures
        visible(pkgs, filter) == pkgs.filter(name_filter(filter)),
        forall|p: PackageView|
            #[trigger] visible(pkgs, filter).contains(p) <==> pkgs.contains(p) && (lowercase(
                filter,
            ).len() == 0 || contains_seq(lowercase(p.name), lowercase(filter))),
    decreases pkgs.len(),
{
    reveal(Seq::filter);
    if pkgs.len() > 0 {
        let d = pkgs.drop_last();
        law_filter_by_name(d, filter);
        let a = pkgs.last();
        let vd = visible(d, filter);
        assert(d.push(a) =~= pkgs);
        assert forall|p: PackageView| #[trigger]
            visible(pkgs, filter).contains(p) <==> pkgs.contains(p) && (lowercase(filter).len()
                == 0 || contains_seq(lowercase(p.name), lowercase(filter))) by {
            if pkgs.contains(p) && p != a {
                let k = choose|k: int| 0 <= k < pkgs.len() && pkgs[k] == p;
                assert(d[k] == p);
            }
            if d.contains(p) {
                let k = choose|k: int| 0 <= k < d.len() && d[k] == p;
                assert(pkgs[k] == p);
            }
            if vd.push(a).contains(p) && p != a {
                let k = choose|k: int| 0 <= k < vd.push(a).len() && vd.push(a)[k] == p;
                assert(vd[k] == p);
            }
            if vd.contains(p) {
                let k = choose|k: int| 0 <= k < vd.len() && vd[k] == p;
                assert(vd.push(a)[k] == p);
            }
            assert(pkgs[pkgs.len() - 1] == a);
            assert(vd.push(a)[vd.len() as int] == a);
        }
    }
}

/// Whether a line of `brew search` output names a package: once trimmed
/// it is not empty and is not a `==>` heading.
pub open spec fn result_line() -> spec_fn(Seq<char>) -> bool {
    |l: Seq<char>| trim(l).len() > 0 && !starts_with(trim(l), seq!['=', '=', '>'])
}

pub open spec fn trimmed() -> spec_fn(Seq<char>) -> Seq<char> {
    |l: Seq<char>| trim(l)
}

proof fn lemma_search_lines_exact(ls: Seq<Seq<char>>)
    ensures
        search_results_of_lines(ls) == ls.filter(result_line()).map_values(trimmed()),
    decreases ls.len(),
{
    reveal(Seq::filter);
    if ls.len() > 0 {
        let d = ls.drop_last();
        lemma_search_lines_exact(d);
        let fd = d.filter(result_line());
        let a = ls.last();
        if result_line()(a) {
            assert(fd.push(a).map_values(trimmed()) =~= fd.map_values(trimmed()).push(trim(a)));
            assert(search_results_of_lines(ls) =~= search_results_of_lines(d).push(trim(a)));
        }
    }
}

/// `brew search` gives, in order, every line of its output that is not
/// blank and not a `==>` heading, trimmed, and nothing else.
pub proof fn law_search_results_exact(text: Seq<char>)
    ensures
        search_results(text) == lines(text).filter(result_line()).map_values(trimmed()),
        forall|i: int|
            0 <= i < lines(text).len() && trim(#[trigger] lines(text)[i]).len() > 0 && !starts_with(
                trim(lines(text)[i]),
                seq!['=', '=', '>'],
            ) ==> search_results(text).contains(trim(lines(text)[i])),
{
    let ls = lines(text);
    lemma_search_lines_exact(ls);
    broadcast use vstd::seq_lib::group_filter_ensures;
    assert forall|i: int|
        0 <= i < ls.len() && trim(#[trigger] ls[i]).len() > 0 && !starts_with(
            trim(ls[i]),
            seq!['=', '=', '>'],
        ) implies search_results(text).contains(trim(ls[i])) by {
        let fl = ls.filter(result_line());
        assert(result_line()(ls[i]));
        assert(fl.contains(ls[i]));
        let k = choose|k: int| 0 <= k < fl.len() && fl[k] == ls[i];
        assert(fl.map_values(trimmed())[k] == trim(ls[i]));
    }
}


/// `brew <args>` for the brew at `path`, with nothing added to its
/// environment.
pub open spec fn brew_run(path: Seq<char>, args: Seq<Seq<char>>) -> Seq<ActionView> {
    seq![ActionView::Run(seq![CommandView { program: path, args, envs: seq![] }])]
}

/// The buttons that start jobs on packages run, for the brew that was
/// found, exactly the brew command the button names, and the job carries
/// the button's label.
pub proof fn law_buttons_run_their_command(v: ManagerView, path: Seq<char>, name: Seq<char>, pin: bool)
    requires
        !v.busy,
        v.status.brew_path == Some(path),
    ensures
        on_install_one(v, name).1 == brew_run(
            path,
            (if v.install_as_cask {
                seq!["install"@, "--cask"@]
            } else {
                seq!["install"@]
            }) + seq![name],
        ),
        on_install_one(v, name).0.current_op == Some("Install"@),
        v.selected_installed.len() > 0 ==> on_upgrade_selected_installed(v).1 == brew_run(
            path,
            seq!["upgrade"@] + v.selected_installed,
        ),
        v.selected_installed.len() > 0 ==> on_upgrade_selected_installed(v).0.selected_installed
            == Seq::<Seq<char>>::empty(),
        v.selected_outdated.len() > 0 ==> on_upgrade_selected_outdated(v).1 == brew_run(
            path,
            seq!["upgrade"@] + v.selected_outdated,
        ),
        v.selected_outdated.len() > 0 ==> on_upgrade_selected_outdated(v).0.selected_outdated
            == Seq::<Seq<char>>::empty(),
        v.outdated.len() > 0 ==> on_upgrade_all(v).1 == brew_run(path, seq!["upgrade"@]),
        on_pin(v, name, true).1 == brew_run(path, seq!["pin"@, name]),
        on_pin(v, name, false).1 == brew_run(path, seq!["unpin"@, name]),
        on_pin(v, name, true).0.current_op == Some("Pin"@),
        on_pin(v, name, false).0.current_op == Some("Unpin"@),
        on_maintenance(v, Maintenance::Cleanup).1 == brew_run(path, seq!["cleanup"@, "-s"@]),
        on_maintenance(v, Maintenance::Autoremove).1 == brew_run(path, seq!["autoremove"@]),
        on_maintenance(v, Maintenance::Doctor).1 == brew_run(path, seq!["doctor"@]),
        on_maintenance(v, Maintenance::Update).1 == brew_run(path, seq!["update"@]),
{
    let pre = if v.install_as_cask {
        seq!["install"@, "--cask"@]
    } else {
        seq!["install"@]
    };
    assert(on_install_one(v, name).1 =~= brew_run(path, pre + seq![name]));
    assert(on_maintenance(v, Maintenance::Cleanup).1 =~= brew_run(path, seq!["cleanup"@, "-s"@]));
}

} // verus!
