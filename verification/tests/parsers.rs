use homebrew_manager::brew::{
    outdated_text_is_well_formed, parse_outdated, parse_search_results, parse_versions_list,
};
use homebrew_manager::text::is_whitespace;

#[test]
fn parses_simple_versions_list() {
    let input = "wget 1.24.5\nfish 3.7.0\n";
    let pkgs = parse_versions_list(input);
    assert_eq!(pkgs.len(), 2);
    assert_eq!(pkgs[0].name, "wget");
    assert_eq!(pkgs[0].version, "1.24.5");
}

#[test]
fn parses_multi_version_line() {
    // brew can list multiple installed versions of one formula on one line
    let input = "python@3.11 3.11.6 3.11.7\n";
    let pkgs = parse_versions_list(input);
    assert_eq!(pkgs.len(), 1);
    assert_eq!(pkgs[0].name, "python@3.11");
    assert_eq!(pkgs[0].version, "3.11.6, 3.11.7");
}

#[test]
fn parses_outdated_formula_line() {
    let input = "git (2.40.0) < 2.42.0\n";
    let out = parse_outdated(input, false);
    assert_eq!(out.len(), 1);
    assert_eq!(out[0].name, "git");
    assert_eq!(out[0].current, "2.40.0");
    assert_eq!(out[0].latest, "2.42.0");
    assert!(!out[0].pinned);
}

#[test]
fn parses_outdated_pinned_line() {
    let input = "node (18.0.0) < 20.0.0 [pinned at 18.0.0]\n";
    let out = parse_outdated(input, false);
    assert_eq!(out.len(), 1);
    assert!(out[0].pinned);
}

#[test]
fn parses_outdated_cask_line() {
    let input = "firefox (120.0) != 121.0\n";
    let out = parse_outdated(input, true);
    assert_eq!(out.len(), 1);
    assert_eq!(out[0].name, "firefox");
    assert_eq!(out[0].latest, "121.0");
    assert!(out[0].is_cask);
}

#[test]
fn ignores_blank_lines() {
    let input = "\n\nwget 1.0\n\n";
    assert_eq!(parse_versions_list(input).len(), 1);
}

#[test]
fn versions_list_of_empty_text_is_empty() {
    assert_eq!(parse_versions_list("").len(), 0);
    assert_eq!(parse_versions_list("   \n\t\n").len(), 0);
}

#[test]
fn versions_list_without_final_newline_and_with_crlf() {
    let pkgs = parse_versions_list("a 1\r\nb 2 3\r\nc");
    assert_eq!(pkgs.len(), 3);
    assert_eq!(pkgs[0].name, "a");
    assert_eq!(pkgs[0].version, "1");
    assert_eq!(pkgs[1].name, "b");
    assert_eq!(pkgs[1].version, "2, 3");
    assert_eq!(pkgs[2].name, "c");
    assert_eq!(pkgs[2].version, "");
}

#[test]
fn versions_list_words_split_on_any_whitespace() {
    let pkgs = parse_versions_list("  jq\t1.7  1.8\u{00A0}1.9  \n");
    assert_eq!(pkgs.len(), 1);
    assert_eq!(pkgs[0].name, "jq");
    assert_eq!(pkgs[0].version, "1.7, 1.8, 1.9");
}

#[test]
fn outdated_skips_lines_without_parentheses() {
    let out = parse_outdated("no parens here\n\n  \nzsh (5.9) < 5.9.1\nbroken (1.0\n", false);
    assert_eq!(out.len(), 1);
    assert_eq!(out[0].name, "zsh");
    assert_eq!(out[0].current, "5.9");
    assert_eq!(out[0].latest, "5.9.1");
    assert!(!out[0].is_cask);
}

#[test]
fn outdated_strips_repeated_comparisons() {
    let out = parse_outdated("  pkg name  ()!=!=<<   9.9 extra\n", true);
    assert_eq!(out.len(), 1);
    assert_eq!(out[0].name, "pkg name");
    assert_eq!(out[0].current, "");
    assert_eq!(out[0].latest, "9.9");
    assert!(out[0].is_cask);
    assert!(!out[0].pinned);
}

#[test]
fn outdated_without_latest_version() {
    let out = parse_outdated("tool (1.0)\n", false);
    assert_eq!(out.len(), 1);
    assert_eq!(out[0].latest, "");
}

#[test]
fn outdated_well_formedness() {
    assert!(outdated_text_is_well_formed("git (2.40.0) < 2.42.0\nplain line\n"));
    assert!(outdated_text_is_well_formed(""));
    assert!(outdated_text_is_well_formed("only ) closing\n"));
    assert!(!outdated_text_is_well_formed("fine (1) < 2\nbad ) then (\n"));
}

#[test]
fn search_results_drop_headings_and_blank_lines() {
    let r = parse_search_results("==> Formulae\nwget\n  wgetpaste  \n\n==> Casks\nwhatsapp\n");
    assert_eq!(r, vec!["wget".to_string(), "wgetpaste".to_string(), "whatsapp".to_string()]);
    assert!(parse_search_results("").is_empty());
}

#[test]
fn whitespace_matches_std() {
    for u in 0u32..=0x10FFFF {
        if let Some(c) = char::from_u32(u) {
            assert_eq!(is_whitespace(c), c.is_whitespace(), "{u:#x}");
        }
    }
}

#[test]
fn blank_line_between_packages_changes_nothing() {
    let with_blank = parse_versions_list("a 1\n \t \nb 2\n");
    let without = parse_versions_list("a 1\nb 2\n");
    assert_eq!(with_blank.len(), without.len());
    for (x, y) in with_blank.iter().zip(without.iter()) {
        assert_eq!(x.name, y.name);
        assert_eq!(x.version, y.version);
    }
}

#[test]
fn search_results_agree_with_std_line_handling() {
    let inputs = [
        "", "\n", "\r", "\r\n", "a\r", "a\r\r\n", "a\rb\n", "\n\n x \n", "==>", " ==> x\ny ",
        "a\u{2028}b\nc\u{3000}\n", "\u{85}a\u{85}\r\n\r\nb", "x\n\r\ny\r",
    ];
    for text in inputs {
        let expected: Vec<String> = text
            .lines()
            .map(|l| l.trim())
            .filter(|l| !l.is_empty() && !l.starts_with("==>"))
            .map(|s| s.to_string())
            .collect();
        assert_eq!(parse_search_results(text), expected, "{text:?}");
    }
}

#[test]
fn written_version_lines_read_back() {
    let pkgs: Vec<(&str, Vec<&str>)> =
        vec![("jq", vec!["1.6", "1.7.1"]), ("tree", vec!["2.1.1"]), ("orphan", vec![])];
    let mut text = String::new();
    for (name, versions) in &pkgs {
        text.push_str(name);
        for v in versions {
            text.push(' ');
            text.push_str(v);
        }
        text.push('\n');
    }
    let read = parse_versions_list(&text);
    assert_eq!(read.len(), pkgs.len());
    for (p, (name, versions)) in read.iter().zip(&pkgs) {
        assert_eq!(p.name, *name);
        assert_eq!(p.version, versions.join(", "));
    }
}

#[test]
fn written_outdated_lines_read_back() {
    let cases = [
        ("git", "2.40.0", "<", "2.42.0", "", false),
        ("node", "18.1", "!=", "20.0", " [pinned at 18.1]", true),
        ("my app", "1.0 (beta", "<", "1.1", " ", false),
    ];
    for (name, current, op, latest, suffix, is_cask) in cases {
        let text = format!("{name} ({current}) {op} {latest}{suffix}\n");
        assert!(outdated_text_is_well_formed(&text));
        let read = parse_outdated(&text, is_cask);
        assert_eq!(read.len(), 1);
        assert_eq!(read[0].name, name);
        assert_eq!(read[0].current, current);
        assert_eq!(read[0].latest, latest);
        assert_eq!(read[0].pinned, text.contains("[pinned"));
        assert_eq!(read[0].is_cask, is_cask);
    }
}
