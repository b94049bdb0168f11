use mkprompt::prompt::assemble_prompt;
use mkprompt::prompt::fallback_prompt;
use mkprompt::prompt::on_root_filesystem;

const LIGHT_GREEN: &str = "\\[\\033[1;32m\\]";
const LIGHT_RED: &str = "\\[\\033[1;31m\\]";
const HOST: &str = "\\[\\033[38;5;28m\\]";
const NONE: &str = "\\[\\033[0m\\]";

#[test]
fn fallback_prompt_is_the_fixed_minimal_line() {
    assert_eq!(fallback_prompt(), "\\[\\033[0m\\]\\u@\\h \\w");
}

#[test]
fn prompt_without_privileges_uses_at_marker() {
    let r = assemble_prompt(false, &String::from("PATH"), &String::from("VCS"));
    assert_eq!(
        r,
        format!("{}\\u{}@{}\\h PATH{} VCS", LIGHT_GREEN, HOST, HOST, NONE)
    );
}

#[test]
fn prompt_with_privileges_uses_bang_marker() {
    let r = assemble_prompt(true, &String::from("PATH"), &String::from("VCS"));
    assert_eq!(
        r,
        format!("{}\\u{}!{}\\h PATH{} VCS", LIGHT_GREEN, LIGHT_RED, HOST, NONE)
    );
}

#[test]
fn empty_vcs_segment_leaves_trailing_space() {
    let r = assemble_prompt(false, &String::from("P"), &String::new());
    assert!(r.ends_with(" "));
}

#[test]
fn repository_queries_only_on_the_root_device() {
    assert!(on_root_filesystem(7, 7));
    assert!(!on_root_filesystem(7, 8));
}
