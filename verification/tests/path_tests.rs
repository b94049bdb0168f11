use mkprompt::path_abbrev::PathComponent;
use mkprompt::path_abbrev::PathError;
use mkprompt::path_abbrev::abbreviate;
use mkprompt::path_abbrev::mkpwd;
use mkprompt::path_abbrev::path_length;

fn normal(name: &str) -> PathComponent {
    PathComponent::Normal(String::from(name))
}

fn root() -> PathComponent {
    PathComponent::RootDir
}

const DIM: &str = "\\[\\033[0;34m\\]";
const BRIGHT: &str = "\\[\\033[1;34m\\]";

fn no_home() -> Vec<PathComponent> {
    vec![root(), normal("a-home-nobody-has")]
}

#[test]
fn path_length_of_bare_root_is_one() {
    assert_eq!(path_length(&vec![root()]), Ok(1));
}

#[test]
fn path_length_of_empty_is_zero() {
    assert_eq!(path_length(&vec![]), Ok(0));
}

#[test]
fn path_length_sums_names_and_separators() {
    assert_eq!(path_length(&vec![root(), normal("home"), normal("user")]), Ok(10));
}

#[test]
fn path_length_of_relative_name() {
    assert_eq!(path_length(&vec![normal("a")]), Ok(2));
}

#[test]
fn path_length_rejects_unexpected_part() {
    let r = path_length(&vec![root(), PathComponent::Unsupported]);
    assert!(matches!(r, Err(PathError::UnexpectedPathPart)));
}

#[test]
fn path_length_monotonic_along_ancestors() {
    let mut parts: Vec<PathComponent> = vec![root()];
    let mut last = path_length(&parts).unwrap();
    for name in ["usr", "share", "doc", "examples"] {
        parts.push(normal(name));
        let next = path_length(&parts).unwrap();
        assert!(last <= next);
        last = next;
    }
}

#[test]
fn under_budget_path_is_unabbreviated_and_bright() {
    let parts = vec![root(), normal("home"), normal("user")];
    let r = abbreviate(&parts, &no_home(), 40).unwrap();
    assert_eq!(r, format!("{}{}/home/user", DIM, BRIGHT));
}

#[test]
fn bare_root_renders_as_bright_slash() {
    let parts = vec![root()];
    let r = abbreviate(&parts, &no_home(), 40).unwrap();
    assert_eq!(r, format!("{}{}/", DIM, BRIGHT));
}

#[test]
fn home_prefix_becomes_tilde() {
    let parts = vec![root(), normal("home"), normal("user"), normal("proj")];
    let home = vec![root(), normal("home"), normal("user")];
    let r = abbreviate(&parts, &home, 40).unwrap();
    assert_eq!(r, format!("{}{}~/proj", DIM, BRIGHT));
}

#[test]
fn path_equal_to_home_is_just_the_tilde() {
    let parts = vec![root(), normal("home"), normal("user")];
    let home = vec![root(), normal("home"), normal("user")];
    let r = abbreviate(&parts, &home, 40).unwrap();
    assert_eq!(r, format!("{}{}~", DIM, BRIGHT));
}

#[test]
fn over_budget_prefix_is_abbreviated_to_first_letters() {
    let parts = vec![
        root(),
        normal("abcdefghij"),
        normal("klmnopqrst"),
        normal("uvwxyzabcd"),
        normal("final-dir!"),
    ];
    let r = abbreviate(&parts, &no_home(), 40).unwrap();
    assert_eq!(r, format!("{}/a{}/klmnopqrst/uvwxyzabcd/final-dir!", DIM, BRIGHT));
}

#[test]
fn over_budget_home_path_keeps_tilde_and_tail() {
    let parts = vec![
        root(),
        normal("home"),
        normal("user"),
        normal("abcdefghij"),
        normal("klmnopqrst"),
        normal("uvwxyzabcd"),
        normal("final-dir!"),
    ];
    let home = vec![root(), normal("home"), normal("user")];
    let r = abbreviate(&parts, &home, 40).unwrap();
    assert_eq!(r, format!("{}~/a{}/klmnopqrst/uvwxyzabcd/final-dir!", DIM, BRIGHT));
}

#[test]
fn last_component_is_never_abbreviated() {
    let parts = vec![root(), normal("a-very-long-current-directory-name-indeed-it-is")];
    let r = abbreviate(&parts, &no_home(), 40).unwrap();
    assert_eq!(
        r,
        format!("{}/{}/a-very-long-current-directory-name-indeed-it-is", DIM, BRIGHT)
    );
    assert!(r.ends_with("a-very-long-current-directory-name-indeed-it-is"));
}

#[test]
fn budget_zero_still_shows_last_component() {
    let parts = vec![root(), normal("a"), normal("b")];
    let r = abbreviate(&parts, &no_home(), 0).unwrap();
    assert_eq!(r, format!("{}/a{}/b", DIM, BRIGHT));
}

#[test]
fn abbreviate_is_deterministic_across_invocations() {
    let parts = vec![
        root(),
        normal("abcdefghij"),
        normal("klmnopqrst"),
        normal("uvwxyzabcd"),
        normal("final-dir!"),
    ];
    let first = abbreviate(&parts, &no_home(), 40).unwrap();
    let second = abbreviate(&parts, &no_home(), 40).unwrap();
    assert_eq!(first, second);
}

#[test]
fn abbreviate_rejects_unexpected_part() {
    let parts = vec![root(), PathComponent::Unsupported, normal("x")];
    let r = abbreviate(&parts, &no_home(), 40);
    assert!(matches!(r, Err(PathError::UnexpectedPathPart)));
}

#[test]
fn mkpwd_uses_the_default_budget() {
    let parts = vec![root(), normal("home"), normal("user")];
    let a = mkpwd(&parts, &no_home()).unwrap();
    let b = abbreviate(&parts, &no_home(), 40).unwrap();
    assert_eq!(a, b);
}
