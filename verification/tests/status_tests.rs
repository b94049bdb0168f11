use mkprompt::repo_status::RepoFacts;
use mkprompt::repo_status::change_flags;
use mkprompt::repo_status::colorize;
use mkprompt::repo_status::STATUS_INDEX_MODIFIED;
use mkprompt::repo_status::STATUS_INDEX_NEW;
use mkprompt::repo_status::STATUS_WT_MODIFIED;
use mkprompt::repo_status::STATUS_WT_NEW;
use mkprompt::decimal::usize_to_decimal;

const RED: &str = "\\[\\033[0;31m\\]";
const GREEN: &str = "\\[\\033[0;32m\\]";
const YELLOW: &str = "\\[\\033[0;33m\\]";
const CYAN: &str = "\\[\\033[0;1;36m\\]";
const DARK_CYAN: &str = "\\[\\033[0;36m\\]";
const NONE: &str = "\\[\\033[0m\\]";

fn clean_facts() -> RepoFacts {
    RepoFacts {
        branch: Some(String::from("main")),
        staged: false,
        unstaged: false,
        ahead: 0,
        behind: 0,
        stash_count: 0,
        bare: false,
        empty: false,
    }
}

#[test]
fn clean_branch_is_success_colored_name_only() {
    let r = colorize(&clean_facts());
    assert_eq!(r, format!("{}(main){}{}", GREEN, RED, NONE));
}

#[test]
fn detached_head_is_alert_colored_detached() {
    let facts = RepoFacts { branch: None, ..clean_facts() };
    let r = colorize(&facts);
    assert_eq!(r, format!("{}(detached){}{}", RED, RED, NONE));
}

#[test]
fn ahead_appends_success_glyph() {
    let facts = RepoFacts { ahead: 3, ..clean_facts() };
    let r = colorize(&facts);
    assert_eq!(r, format!("{}(main){} \u{2191}\u{2191}{}{}", GREEN, GREEN, RED, NONE));
}

#[test]
fn behind_appends_alert_glyph() {
    let facts = RepoFacts { behind: 2, ..clean_facts() };
    let r = colorize(&facts);
    assert_eq!(
        r,
        format!("{}(main){} \u{2193}\u{2193}\u{2193}\u{2193}{}{}", GREEN, RED, RED, NONE)
    );
}

#[test]
fn diverged_appends_no_glyph() {
    let facts = RepoFacts { ahead: 1, behind: 1, ..clean_facts() };
    let r = colorize(&facts);
    assert_eq!(r, format!("{}(main){}{}", GREEN, RED, NONE));
}

#[test]
fn stash_count_is_annotated_in_parentheses() {
    let facts = RepoFacts { stash_count: 2, ..clean_facts() };
    let r = colorize(&facts);
    assert_eq!(r, format!("{}(main){} (2){}", GREEN, RED, NONE));
    assert!(r.contains("2"));
}

#[test]
fn zero_stash_has_no_annotation() {
    let r = colorize(&clean_facts());
    assert!(!r.contains(" ("));
}

#[test]
fn empty_repository_short_circuits() {
    let facts = RepoFacts { empty: true, bare: true, ..clean_facts() };
    let r = colorize(&facts);
    assert_eq!(r, format!("{}(empty){}", RED, NONE));
}

#[test]
fn bare_repository_short_circuits() {
    let facts = RepoFacts { bare: true, ..clean_facts() };
    let r = colorize(&facts);
    assert_eq!(r, format!("{}(bare repository){}", RED, NONE));
}

#[test]
fn unstaged_only_is_info_colored() {
    let facts = RepoFacts { unstaged: true, ..clean_facts() };
    let r = colorize(&facts);
    assert_eq!(r, format!("{}(main){}{}", CYAN, RED, NONE));
}

#[test]
fn staged_only_is_secondary_colored() {
    let facts = RepoFacts { staged: true, ..clean_facts() };
    let r = colorize(&facts);
    assert_eq!(r, format!("{}(main){}{}", DARK_CYAN, RED, NONE));
}

#[test]
fn staged_and_unstaged_is_warning_colored() {
    let facts = RepoFacts { staged: true, unstaged: true, ..clean_facts() };
    let r = colorize(&facts);
    assert_eq!(r, format!("{}(main){}{}", YELLOW, RED, NONE));
}

#[test]
fn no_entries_means_no_changes() {
    assert_eq!(change_flags(&vec![]), (false, false));
}

#[test]
fn worktree_bits_mean_unstaged() {
    assert_eq!(change_flags(&vec![STATUS_WT_MODIFIED]), (false, true));
    assert_eq!(change_flags(&vec![STATUS_WT_NEW]), (false, true));
}

#[test]
fn index_bits_mean_staged() {
    assert_eq!(change_flags(&vec![STATUS_INDEX_MODIFIED]), (true, false));
}

#[test]
fn bits_aggregate_across_entries() {
    assert_eq!(change_flags(&vec![STATUS_INDEX_NEW, STATUS_WT_NEW]), (true, true));
    assert_eq!(change_flags(&vec![STATUS_INDEX_NEW | STATUS_WT_NEW]), (true, true));
}

#[test]
fn unrelated_bits_are_ignored() {
    // the ignored-file bit, outside both groups
    assert_eq!(change_flags(&vec![16384]), (false, false));
}

#[test]
fn decimal_renders_exact_digits() {
    assert_eq!(usize_to_decimal(0), "0");
    assert_eq!(usize_to_decimal(7), "7");
    assert_eq!(usize_to_decimal(10), "10");
    assert_eq!(usize_to_decimal(42), "42");
    assert_eq!(usize_to_decimal(1234567), "1234567");
}
