use vstd::prelude::*;
use crate::color::Color;
use crate::color::spec_color;
use crate::color::color_code;

verus! {

/// The character budget for the visible part of the path segment.
pub const PWD_LENGTH_LIMIT: usize = 40;

/// One component of a resolved absolute path. A resolved path is the root
/// marker followed by plain names; any other kind of component (a parent
/// reference, a current-directory dot, a drive prefix) is unexpected input
/// and carried as `Unsupported` so that the estimator can reject it.
#[derive(Debug)]
pub enum PathComponent {
    RootDir,
    Normal(String),
    Unsupported,
}

/// The one error the path functions report: a component that is neither the
/// root marker nor a plain name.
#[derive(Clone, Copy, PartialEq, Eq, Structural, Debug)]
pub enum PathError {
    UnexpectedPathPart,
}

/// A component the estimator accepts.
pub open spec fn component_ok(c: PathComponent) -> bool {
    !(c is Unsupported)
}

/// Every component is the root marker or a plain name.
pub open spec fn parts_ok(parts: Seq<PathComponent>) -> bool {
    forall|i: int| 0 <= i < parts.len() ==> component_ok(#[trigger] parts[i])
}

/// What one component adds to the logical length: a name plus the separator
/// that will precede it; the root marker itself adds nothing.
pub open spec fn spec_component_length(c: PathComponent) -> nat {
    match c {
        PathComponent::Normal(s) => s@.len() + 1,
        _ => 0,
    }
}

/// The sum of the components' logical lengths.
pub open spec fn spec_components_length(parts: Seq<PathComponent>) -> nat
    decreases parts.len(),
{
    if parts.len() == 0 {
        0
    } else {
        spec_component_length(parts[0]) + spec_components_length(parts.drop_first())
    }
}

/// The path begins with the root marker.
pub open spec fn spec_is_absolute(parts: Seq<PathComponent>) -> bool {
    parts.len() > 0 && parts[0] is RootDir
}

/// The logical length of a whole path: the sum of its components' lengths,
/// except that a bare absolute root counts as one character for its
/// separator.
pub open spec fn spec_path_length(parts: Seq<PathComponent>) -> nat {
    if spec_is_absolute(parts) && spec_components_length(parts) == 0 {
        1
    } else {
        spec_components_length(parts)
    }
}

proof fn lemma_components_length_split(parts: Seq<PathComponent>, k: int)
    requires
        0 <= k <= parts.len(),
    ensures
        spec_components_length(parts) == spec_components_length(parts.take(k))
            + spec_components_length(parts.skip(k)),
    decreases k,
{
    if k == 0 {
        assert(parts.take(0) =~= Seq::<PathComponent>::empty());
        assert(parts.skip(0) =~= parts);
    } else {
        lemma_components_length_split(parts.drop_first(), k - 1);
        assert(parts.take(k).drop_first() =~= parts.drop_first().take(k - 1));
        assert(parts.skip(k) =~= parts.drop_first().skip(k - 1));
        assert(parts.take(k)[0] == parts[0]);
    }
}

proof fn lemma_components_length_push(parts: Seq<PathComponent>, c: PathComponent)
    ensures
        spec_components_length(parts.push(c)) == spec_components_length(parts)
            + spec_component_length(c),
    decreases parts.len(),
{
    let p = parts.push(c);
    assert(p.len() == parts.len() + 1);
    assert(spec_components_length(p) == spec_component_length(p[0]) + spec_components_length(
        p.drop_first(),
    ));
    if parts.len() == 0 {
        assert(p.drop_first() =~= Seq::<PathComponent>::empty());
        assert(p[0] == c);
        assert(spec_components_length(p.drop_first()) == 0);
    } else {
        lemma_components_length_push(parts.drop_first(), c);
        assert(p.drop_first() =~= parts.drop_first().push(c));
        assert(p[0] == parts[0]);
        assert(spec_components_length(parts) == spec_component_length(parts[0])
            + spec_components_length(parts.drop_first()));
    }
}

/// Computes the logical length of a path, rejecting any component that is
/// not the root marker or a plain name.
pub fn path_length(parts: &Vec<PathComponent>) -> (r: Result<usize, PathError>)
    requires
        spec_components_length(parts@) <= usize::MAX,
    ensures
        match r {
            Ok(n) => parts_ok(parts@) && n == spec_path_length(parts@),
            Err(e) => !parts_ok(parts@) && e == PathError::UnexpectedPathPart,
        },
{
    let mut length: usize = 0;
    let mut i: usize = 0;
    while i < parts.len()
        invariant
            i <= parts.len(),
            spec_components_length(parts@) <= usize::MAX,
            length == spec_components_length(parts@.take(i as int)),
            forall|j: int| 0 <= j < i ==> component_ok(#[trigger] parts@[j]),
        decreases parts.len() - i,
    {
        proof {
            assert(parts@.take(i + 1) =~= parts@.take(i as int).push(parts@[i as int]));
            lemma_components_length_push(parts@.take(i as int), parts@[i as int]);
            lemma_components_length_split(parts@, i + 1);
        }
        match &parts[i] {
            PathComponent::RootDir => {},
            PathComponent::Normal(s) => {
                let name_chars = s.as_str().unicode_len();
                length = length + name_chars + 1;
            },
            PathComponent::Unsupported => {
                return Err(PathError::UnexpectedPathPart);
            },
        }
        i += 1;
    }
    proof {
        assert(parts@.take(parts@.len() as int) =~= parts@);
    }
    let absolute = if parts.len() > 0 {
        match &parts[0] {
            PathComponent::RootDir => true,
            _ => false,
        }
    } else {
        false
    };
    if absolute && length == 0 {
        length = 1;
    }
    Ok(length)
}

/// Two components are the same path step: the same kind, and for plain
/// names the same text.
pub open spec fn spec_component_matches(a: PathComponent, b: PathComponent) -> bool {
    match (a, b) {
        (PathComponent::RootDir, PathComponent::RootDir) => true,
        (PathComponent::Normal(x), PathComponent::Normal(y)) => x@ == y@,
        (PathComponent::Unsupported, PathComponent::Unsupported) => true,
        _ => false,
    }
}

/// The home path's components are an initial run of the path's components.
pub open spec fn spec_is_prefix(home: Seq<PathComponent>, parts: Seq<PathComponent>) -> bool {
    home.len() <= parts.len() && forall|i: int|
        0 <= i < home.len() ==> #[trigger] spec_component_matches(home[i], parts[i])
}

proof fn lemma_prefix_parts_ok(home: Seq<PathComponent>, parts: Seq<PathComponent>)
    requires
        spec_is_prefix(home, parts),
        parts_ok(parts),
    ensures
        parts_ok(home),
{
    assert forall|i: int| 0 <= i < home.len() implies component_ok(#[trigger] home[i]) by {
        assert(spec_component_matches(home[i], parts[i]));
    }
}

proof fn lemma_components_length_pointwise(a: Seq<PathComponent>, b: Seq<PathComponent>)
    requires
        a.len() == b.len(),
        forall|i: int| 0 <= i < a.len() ==> #[trigger] spec_component_matches(a[i], b[i]),
    ensures
        spec_components_length(a) == spec_components_length(b),
    decreases a.len(),
{
    if a.len() > 0 {
        assert(spec_component_matches(a[0], b[0]));
        assert forall|i: int|
            0 <= i < a.drop_first().len() implies #[trigger] spec_component_matches(
            a.drop_first()[i],
            b.drop_first()[i],
        ) by {
            assert(spec_component_matches(a[i + 1], b[i + 1]));
        }
        lemma_components_length_pointwise(a.drop_first(), b.drop_first());
    }
}

proof fn lemma_prefix_components_length(home: Seq<PathComponent>, parts: Seq<PathComponent>)
    requires
        spec_is_prefix(home, parts),
    ensures
        spec_components_length(home) <= spec_components_length(parts),
{
    let k = home.len() as int;
    assert forall|i: int| 0 <= i < home.len() implies #[trigger] spec_component_matches(
        home[i],
        parts.take(k)[i],
    ) by {
        assert(spec_component_matches(home[i], parts[i]));
    }
    lemma_components_length_pointwise(home, parts.take(k));
    lemma_components_length_split(parts, k);
}

/// Tests whether the home path's components begin the path.
fn is_path_prefix(home: &Vec<PathComponent>, parts: &Vec<PathComponent>) -> (r: bool)
    ensures
        r == spec_is_prefix(home@, parts@),
{
    if home.len() > parts.len() {
        return false;
    }
    let mut i: usize = 0;
    while i < home.len()
        invariant
            i <= home@.len() <= parts@.len(),
            forall|j: int|
                0 <= j < i ==> #[trigger] spec_component_matches(home@[j], parts@[j]),
        decreases home@.len() - i,
    {
        let step_matches = match (&home[i], &parts[i]) {
            (PathComponent::RootDir, PathComponent::RootDir) => true,
            (PathComponent::Normal(x), PathComponent::Normal(y)) => x.eq(y),
            (PathComponent::Unsupported, PathComponent::Unsupported) => true,
            _ => false,
        };
        if !step_matches {
            proof {
                assert(!spec_component_matches(home@[i as int], parts@[i as int]));
            }
            return false;
        }
        i += 1;
    }
    true
}

/// Subtraction that stops at zero; the running counters never wrap.
pub open spec fn sat_sub(a: nat, b: nat) -> nat {
    if a >= b {
        (a - b) as nat
    } else {
        0
    }
}

fn usize_sat_sub(a: usize, b: usize) -> (r: usize)
    ensures
        r as nat == sat_sub(a as nat, b as nat),
{
    if a >= b {
        a - b
    } else {
        0
    }
}

/// The first character of a name, or nothing when the name is empty.
pub open spec fn first_char_seq(s: Seq<char>) -> Seq<char> {
    if s.len() == 0 {
        Seq::<char>::empty()
    } else {
        seq![s[0]]
    }
}

/// What the abbreviator emits for the components from position `i` on, given
/// the two running counters and the renderer's state: whether the bright
/// color is already active, and whether the text emitted so far ends in a
/// separator. A named component that is not the last and whose remaining
/// length still exceeds the remaining budget is cut to its first character
/// and costs one budget unit; any other named component is emitted whole.
/// The bright color switches on the first time the remaining length fits the
/// remaining budget, and at the last component in any case.
pub open spec fn spec_abbrev_from(
    parts: Seq<PathComponent>,
    i: int,
    rem_len: nat,
    rem_lim: nat,
    under: bool,
    ends_slash: bool,
) -> Seq<char>
    decreases parts.len() - i,
{
    if i < 0 || i >= parts.len() {
        Seq::<char>::empty()
    } else {
        match parts[i] {
            PathComponent::RootDir => {
                let flip = !under && rem_len <= rem_lim;
                let head = if flip {
                    spec_color(Color::PathBright) + "/"@
                } else {
                    "/"@
                };
                head + spec_abbrev_from(
                    parts,
                    i + 1,
                    sat_sub(rem_len, 1),
                    sat_sub(rem_lim, 1),
                    under || flip,
                    true,
                )
            },
            PathComponent::Normal(s) => {
                let clen = s@.len();
                if i < parts.len() - 1 && rem_len > rem_lim {
                    if !ends_slash {
                        "/"@ + first_char_seq(s@) + spec_abbrev_from(
                            parts,
                            i + 1,
                            sat_sub(sat_sub(rem_len, 1), clen),
                            sat_sub(sat_sub(rem_lim, 1), 1),
                            under,
                            clen == 0,
                        )
                    } else {
                        first_char_seq(s@) + spec_abbrev_from(
                            parts,
                            i + 1,
                            sat_sub(rem_len, clen),
                            sat_sub(rem_lim, 1),
                            under,
                            clen == 0,
                        )
                    }
                } else {
                    let head = if !under {
                        spec_color(Color::PathBright)
                    } else {
                        Seq::<char>::empty()
                    };
                    let es = if !under {
                        false
                    } else {
                        ends_slash
                    };
                    if !es {
                        head + "/"@ + s@ + spec_abbrev_from(
                            parts,
                            i + 1,
                            sat_sub(sat_sub(rem_len, 1), clen),
                            sat_sub(sat_sub(rem_lim, 1), clen),
                            true,
                            clen == 0,
                        )
                    } else {
                        head + s@ + spec_abbrev_from(
                            parts,
                            i + 1,
                            sat_sub(rem_len, clen),
                            sat_sub(rem_lim, clen),
                            true,
                            clen == 0,
                        )
                    }
                }
            },
            PathComponent::Unsupported => Seq::<char>::empty(),
        }
    }
}

/// The whole display string for a path: the dim path color, then, when the
/// path lies under the home directory, a `~` standing for the home prefix
/// (which costs one budget unit), then the components' rendering.
pub open spec fn spec_abbreviate(
    parts: Seq<PathComponent>,
    home: Seq<PathComponent>,
    budget: nat,
) -> Seq<char> {
    let total = spec_path_length(parts);
    if spec_is_prefix(home, parts) {
        let lim0 = sat_sub(budget, 1);
        let len0 = sat_sub(total, spec_path_length(home));
        let under0 = len0 <= lim0;
        spec_color(Color::PathDim) + (if under0 {
            spec_color(Color::PathBright)
        } else {
            Seq::<char>::empty()
        }) + "~"@ + spec_abbrev_from(parts, home.len() as int, len0, lim0, under0, false)
    } else {
        spec_color(Color::PathDim) + spec_abbrev_from(parts, 0, total, budget, false, false)
    }
}

#[verifier::rlimit(100)]
fn abbrev_from(
    parts: &Vec<PathComponent>,
    i: usize,
    rem_len: usize,
    rem_lim: usize,
    under: bool,
    ends_slash: bool,
    pwd: &mut String,
)
    requires
        parts_ok(parts@),
        i <= parts@.len(),
    ensures
        final(pwd)@ == old(pwd)@ + spec_abbrev_from(
            parts@,
            i as int,
            rem_len as nat,
            rem_lim as nat,
            under,
            ends_slash,
        ),
    decreases parts@.len() - i,
{
    if i >= parts.len() {
        proof {
            assert(pwd@ =~= old(pwd)@ + spec_abbrev_from(
                parts@,
                i as int,
                rem_len as nat,
                rem_lim as nat,
                under,
                ends_slash,
            ));
        }
        return ;
    }
    match &parts[i] {
        PathComponent::RootDir => {
            let mut flip = false;
            if rem_len <= rem_lim && !under {
                pwd.append(color_code(Color::PathBright));
                flip = true;
            }
            pwd.append("/");
            abbrev_from(
                parts,
                i + 1,
                usize_sat_sub(rem_len, 1),
                usize_sat_sub(rem_lim, 1),
                under || flip,
                true,
                pwd,
            );
            proof {
                assert(pwd@ =~= old(pwd)@ + spec_abbrev_from(
                    parts@,
                    i as int,
                    rem_len as nat,
                    rem_lim as nat,
                    under,
                    ends_slash,
                ));
            }
        },
        PathComponent::Normal(s) => {
            let is_last = i == parts.len() - 1;
            let clen = s.as_str().unicode_len();
            if !is_last && rem_len > rem_lim {
                if !ends_slash {
                    pwd.append("/");
                }
                if clen > 0 {
                    let first = s.as_str().substring_char(0, 1);
                    proof {
                        assert(first@ =~= first_char_seq(s@));
                    }
                    pwd.append(first);
                }
                if !ends_slash {
                    abbrev_from(
                        parts,
                        i + 1,
                        usize_sat_sub(usize_sat_sub(rem_len, 1), clen),
                        usize_sat_sub(usize_sat_sub(rem_lim, 1), 1),
                        under,
                        clen == 0,
                        pwd,
                    );
                } else {
                    abbrev_from(
                        parts,
                        i + 1,
                        usize_sat_sub(rem_len, clen),
                        usize_sat_sub(rem_lim, 1),
                        under,
                        clen == 0,
                        pwd,
                    );
                }
                proof {
                    assert(pwd@ =~= old(pwd)@ + spec_abbrev_from(
                        parts@,
                        i as int,
                        rem_len as nat,
                        rem_lim as nat,
                        under,
                        ends_slash,
                    ));
                }
            } else {
                let was_under = under;
                let es_here = if !was_under {
                    false
                } else {
                    ends_slash
                };
                if !was_under {
                    pwd.append(color_code(Color::PathBright));
                }
                if !es_here {
                    pwd.append("/");
                }
                pwd.append(s.as_str());
                if !es_here {
                    abbrev_from(
                        parts,
                        i + 1,
                        usize_sat_sub(usize_sat_sub(rem_len, 1), clen),
                        usize_sat_sub(usize_sat_sub(rem_lim, 1), clen),
                        true,
                        clen == 0,
                        pwd,
                    );
                } else {
                    abbrev_from(
                        parts,
                        i + 1,
                        usize_sat_sub(rem_len, clen),
                        usize_sat_sub(rem_lim, clen),
                        true,
                        clen == 0,
                        pwd,
                    );
                }
                proof {
                    assert(pwd@ =~= old(pwd)@ + spec_abbrev_from(
                        parts@,
                        i as int,
                        rem_len as nat,
                        rem_lim as nat,
                        under,
                        ends_slash,
                    ));
                }
            }
        },
        PathComponent::Unsupported => {
            proof {
                assert(component_ok(parts@[i as int]));
                assert(false);
            }
        },
    }
}

/// Abbreviates a path to fit the character budget. The home path's prefix,
/// when present, becomes `~`; leading components are cut to their first
/// letter while the remaining length exceeds the remaining budget; the last
/// component is always emitted whole. The result carries the dim path color
/// up to the point where the unabbreviated suffix begins and the bright path
/// color after it. A component that is neither the root marker nor a plain
/// name is rejected.
pub fn abbreviate(parts: &Vec<PathComponent>, home: &Vec<PathComponent>, budget: usize) -> (r:
    Result<String, PathError>)
    requires
        spec_components_length(parts@) <= usize::MAX,
    ensures
        match r {
            Ok(out) => parts_ok(parts@) && out@ == spec_abbreviate(
                parts@,
                home@,
                budget as nat,
            ),
            Err(e) => !parts_ok(parts@) && e == PathError::UnexpectedPathPart,
        },
{
    let total = match path_length(parts) {
        Ok(n) => n,
        Err(e) => {
            return Err(e);
        },
    };
    let mut pwd = String::from_str(color_code(Color::PathDim));
    if is_path_prefix(home, parts) {
        proof {
            lemma_prefix_parts_ok(home@, parts@);
            lemma_prefix_components_length(home@, parts@);
        }
        let rem_lim = usize_sat_sub(budget, 1);
        let home_total = match path_length(home) {
            Ok(n) => n,
            Err(_) => {
                proof {
                    assert(false);
                }
                return Err(PathError::UnexpectedPathPart);
            },
        };
        let rem_len = usize_sat_sub(total, home_total);
        let under = rem_len <= rem_lim;
        if under {
            pwd.append(color_code(Color::PathBright));
        }
        pwd.append("~");
        abbrev_from(parts, home.len(), rem_len, rem_lim, under, false, &mut pwd);
        proof {
            assert(pwd@ =~= spec_abbreviate(parts@, home@, budget as nat));
        }
        Ok(pwd)
    } else {
        abbrev_from(parts, 0, total, budget, false, false, &mut pwd);
        proof {
            assert(pwd@ =~= spec_abbreviate(parts@, home@, budget as nat));
        }
        Ok(pwd)
    }
}

/// Abbreviates a path to the default budget.
pub fn mkpwd(parts: &Vec<PathComponent>, home: &Vec<PathComponent>) -> (r: Result<
    String,
    PathError,
>)
    requires
        spec_components_length(parts@) <= usize::MAX,
    ensures
        match r {
            Ok(out) => parts_ok(parts@) && out@ == spec_abbreviate(
                parts@,
                home@,
                PWD_LENGTH_LIMIT as nat,
            ),
            Err(e) => !parts_ok(parts@) && e == PathError::UnexpectedPathPart,
        },
{
    abbreviate(parts, home, PWD_LENGTH_LIMIT)
}

/// The logical length of a whole path is never less than the logical length
/// of any of its ancestors (the prefixes of its component sequence): length
/// is monotonically non-decreasing as components are appended.
pub proof fn lemma_path_length_ancestor_monotonic(parts: Seq<PathComponent>, k: int)
    requires
        0 <= k <= parts.len(),
    ensures
        spec_path_length(parts.take(k)) <= spec_path_length(parts),
{
    lemma_components_length_split(parts, k);
    if spec_is_absolute(parts.take(k)) {
        assert(parts.take(k)[0] == parts[0]);
    }
}

/// Appending one component never shortens the logical length.
pub proof fn lemma_path_length_push_monotonic(parts: Seq<PathComponent>, c: PathComponent)
    ensures
        spec_path_length(parts) <= spec_path_length(parts.push(c)),
{
    assert(parts.push(c).take(parts.len() as int) =~= parts);
    lemma_path_length_ancestor_monotonic(parts.push(c), parts.len() as int);
}

/// The text of the components from position `i` on with nothing abbreviated
/// and no color switches: every name in full, a separator before each name
/// unless one is already there.
pub open spec fn spec_full_from(parts: Seq<PathComponent>, i: int, ends_slash: bool) -> Seq<char>
    decreases parts.len() - i,
{
    if i < 0 || i >= parts.len() {
        Seq::<char>::empty()
    } else {
        match parts[i] {
            PathComponent::RootDir => "/"@ + spec_full_from(parts, i + 1, true),
            PathComponent::Normal(s) => (if !ends_slash {
                "/"@ + s@
            } else {
                s@
            }) + spec_full_from(parts, i + 1, s@.len() == 0),
            PathComponent::Unsupported => Seq::<char>::empty(),
        }
    }
}

/// The unabbreviated text of a whole path.
pub open spec fn spec_full_render(parts: Seq<PathComponent>) -> Seq<char> {
    spec_full_from(parts, 0, false)
}

proof fn lemma_abbrev_from_all_full(
    parts: Seq<PathComponent>,
    i: int,
    rem_len: nat,
    rem_lim: nat,
    ends_slash: bool,
)
    requires
        0 <= i,
        rem_len <= rem_lim,
    ensures
        spec_abbrev_from(parts, i, rem_len, rem_lim, true, ends_slash) == spec_full_from(
            parts,
            i,
            ends_slash,
        ),
    decreases parts.len() - i,
{
    if 0 <= i < parts.len() {
        match parts[i] {
            PathComponent::RootDir => {
                lemma_abbrev_from_all_full(parts, i + 1, sat_sub(rem_len, 1), sat_sub(rem_lim, 1), true);
            },
            PathComponent::Normal(s) => {
                let clen = s@.len();
                lemma_abbrev_from_all_full(
                    parts,
                    i + 1,
                    sat_sub(sat_sub(rem_len, 1), clen),
                    sat_sub(sat_sub(rem_lim, 1), clen),
                    clen == 0,
                );
                lemma_abbrev_from_all_full(
                    parts,
                    i + 1,
                    sat_sub(rem_len, clen),
                    sat_sub(rem_lim, clen),
                    clen == 0,
                );
                if !ends_slash {
                    assert(spec_abbrev_from(parts, i, rem_len, rem_lim, true, ends_slash)
                        =~= spec_full_from(parts, i, ends_slash));
                } else {
                    assert(spec_abbrev_from(parts, i, rem_len, rem_lim, true, ends_slash)
                        =~= spec_full_from(parts, i, ends_slash));
                }
            },
            PathComponent::Unsupported => {},
        }
    }
}

/// An absolute path whose whole logical length fits the budget (and which
/// does not lie under the home prefix) is rendered unabbreviated: the bright
/// color is switched on before the very first character and every component
/// is emitted in full.
pub proof fn lemma_under_budget_unabbreviated(
    parts: Seq<PathComponent>,
    home: Seq<PathComponent>,
    budget: nat,
)
    requires
        parts_ok(parts),
        parts.len() > 0,
        parts[0] is RootDir,
        !spec_is_prefix(home, parts),
        spec_path_length(parts) <= budget,
    ensures
        spec_abbreviate(parts, home, budget) == spec_color(Color::PathDim) + spec_color(
            Color::PathBright,
        ) + spec_full_render(parts),
{
    let total = spec_path_length(parts);
    lemma_abbrev_from_all_full(parts, 1, sat_sub(total, 1), sat_sub(budget, 1), true);
    assert(spec_abbreviate(parts, home, budget) =~= spec_color(Color::PathDim) + spec_color(
        Color::PathBright,
    ) + spec_full_render(parts));
}

/// A path under the home prefix whose remaining logical length fits the
/// budget left after the home mark is rendered as `~` followed by the
/// remaining components unabbreviated, with the bright color switched on
/// before the very first character.
pub proof fn lemma_under_budget_home_unabbreviated(
    parts: Seq<PathComponent>,
    home: Seq<PathComponent>,
    budget: nat,
)
    requires
        spec_is_prefix(home, parts),
        sat_sub(spec_path_length(parts), spec_path_length(home)) <= sat_sub(budget, 1),
    ensures
        spec_abbreviate(parts, home, budget) == spec_color(Color::PathDim) + spec_color(
            Color::PathBright,
        ) + "~"@ + spec_full_from(parts, home.len() as int, false),
{
    let total = spec_path_length(parts);
    let lim0 = sat_sub(budget, 1);
    let len0 = sat_sub(total, spec_path_length(home));
    lemma_abbrev_from_all_full(parts, home.len() as int, len0, lim0, false);
    assert(spec_abbreviate(parts, home, budget) =~= spec_color(Color::PathDim) + spec_color(
        Color::PathBright,
    ) + "~"@ + spec_full_from(parts, home.len() as int, false));
}

/// The sequence ends with the given suffix.
pub open spec fn seq_ends_with(a: Seq<char>, suffix: Seq<char>) -> bool {
    a.len() >= suffix.len() && a.subrange(a.len() - suffix.len(), a.len() as int) == suffix
}

proof fn lemma_ends_with_extend(a: Seq<char>, b: Seq<char>, suffix: Seq<char>)
    requires
        seq_ends_with(b, suffix),
    ensures
        seq_ends_with(a + b, suffix),
{
    let c = a + b;
    assert(c.subrange(c.len() - suffix.len(), c.len() as int) =~= b.subrange(
        b.len() - suffix.len(),
        b.len() as int,
    ));
}

proof fn lemma_ends_with_self(a: Seq<char>, suffix: Seq<char>)
    ensures
        seq_ends_with(a + suffix, suffix),
{
    let c = a + suffix;
    assert(c.subrange(c.len() - suffix.len(), c.len() as int) =~= suffix);
}

proof fn lemma_abbrev_from_ends_with_last(
    parts: Seq<PathComponent>,
    i: int,
    rem_len: nat,
    rem_lim: nat,
    under: bool,
    ends_slash: bool,
)
    requires
        parts_ok(parts),
        0 <= i < parts.len(),
        parts.last() is Normal,
    ensures
        seq_ends_with(
            spec_abbrev_from(parts, i, rem_len, rem_lim, under, ends_slash),
            parts.last()->Normal_0@,
        ),
    decreases parts.len() - i,
{
    let name = parts.last()->Normal_0@;
    let out = spec_abbrev_from(parts, i, rem_len, rem_lim, under, ends_slash);
    if i == parts.len() - 1 {
        match parts[i] {
            PathComponent::Normal(s) => {
                let head = if !under {
                    spec_color(Color::PathBright)
                } else {
                    Seq::<char>::empty()
                };
                let es = if !under {
                    false
                } else {
                    ends_slash
                };
                let tail = spec_abbrev_from(
                    parts,
                    i + 1,
                    sat_sub(if !es { sat_sub(rem_len, 1) } else { rem_len }, s@.len()),
                    sat_sub(if !es { sat_sub(rem_lim, 1) } else { rem_lim }, s@.len()),
                    true,
                    s@.len() == 0,
                );
                assert(tail =~= Seq::<char>::empty());
                if !es {
                    assert(out =~= (head + "/"@) + s@);
                    lemma_ends_with_self(head + "/"@, s@);
                } else {
                    assert(out =~= head + s@);
                    lemma_ends_with_self(head, s@);
                }
            },
            _ => {
                assert(false);
            },
        }
    } else {
        match parts[i] {
            PathComponent::RootDir => {
                let flip = !under && rem_len <= rem_lim;
                let head = if flip {
                    spec_color(Color::PathBright) + "/"@
                } else {
                    "/"@
                };
                let rest = spec_abbrev_from(
                    parts,
                    i + 1,
                    sat_sub(rem_len, 1),
                    sat_sub(rem_lim, 1),
                    under || flip,
                    true,
                );
                lemma_abbrev_from_ends_with_last(
                    parts,
                    i + 1,
                    sat_sub(rem_len, 1),
                    sat_sub(rem_lim, 1),
                    under || flip,
                    true,
                );
                lemma_ends_with_extend(head, rest, name);
            },
            PathComponent::Normal(s) => {
                let clen = s@.len();
                if rem_len > rem_lim {
                    if !ends_slash {
                        let rest = spec_abbrev_from(
                            parts,
                            i + 1,
                            sat_sub(sat_sub(rem_len, 1), clen),
                            sat_sub(sat_sub(rem_lim, 1), 1),
                            under,
                            clen == 0,
                        );
                        lemma_abbrev_from_ends_with_last(
                            parts,
                            i + 1,
                            sat_sub(sat_sub(rem_len, 1), clen),
                            sat_sub(sat_sub(rem_lim, 1), 1),
                            under,
                            clen == 0,
                        );
                        assert(out =~= ("/"@ + first_char_seq(s@)) + rest);
                        lemma_ends_with_extend("/"@ + first_char_seq(s@), rest, name);
                    } else {
                        let rest = spec_abbrev_from(
                            parts,
                            i + 1,
                            sat_sub(rem_len, clen),
                            sat_sub(rem_lim, 1),
                            under,
                            clen == 0,
                        );
                        lemma_abbrev_from_ends_with_last(
                            parts,
                            i + 1,
                            sat_sub(rem_len, clen),
                            sat_sub(rem_lim, 1),
                            under,
                            clen == 0,
                        );
                        lemma_ends_with_extend(first_char_seq(s@), rest, name);
                    }
                } else {
                    let head = if !under {
                        spec_color(Color::PathBright)
                    } else {
                        Seq::<char>::empty()
                    };
                    let es = if !under {
                        false
                    } else {
                        ends_slash
                    };
                    if !es {
                        let rest = spec_abbrev_from(
                            parts,
                            i + 1,
                            sat_sub(sat_sub(rem_len, 1), clen),
                            sat_sub(sat_sub(rem_lim, 1), clen),
                            true,
                            clen == 0,
                        );
                        lemma_abbrev_from_ends_with_last(
                            parts,
                            i + 1,
                            sat_sub(sat_sub(rem_len, 1), clen),
                            sat_sub(sat_sub(rem_lim, 1), clen),
                            true,
                            clen == 0,
                        );
                        assert(out =~= ((head + "/"@) + s@) + rest);
                        lemma_ends_with_extend((head + "/"@) + s@, rest, name);
                    } else {
                        let rest = spec_abbrev_from(
                            parts,
                            i + 1,
                            sat_sub(rem_len, clen),
                            sat_sub(rem_lim, clen),
                            true,
                            clen == 0,
                        );
                        lemma_abbrev_from_ends_with_last(
                            parts,
                            i + 1,
                            sat_sub(rem_len, clen),
                            sat_sub(rem_lim, clen),
                            true,
                            clen == 0,
                        );
                        assert(out =~= (head + s@) + rest);
                        lemma_ends_with_extend(head + s@, rest, name);
                    }
                }
            },
            PathComponent::Unsupported => {
                assert(component_ok(parts[i]));
                assert(false);
            },
        }
    }
}

/// The deepest component of a path is always rendered in full, never cut to
/// its first letter, whatever the budget: the display string ends with the
/// last component's whole name. (When the path lies under the home prefix,
/// at least one component must remain after the prefix; a path equal to the
/// home directory is rendered as the home mark alone.)
pub proof fn lemma_last_component_always_full(
    parts: Seq<PathComponent>,
    home: Seq<PathComponent>,
    budget: nat,
)
    requires
        parts_ok(parts),
        parts.len() > 0,
        parts.last() is Normal,
        spec_is_prefix(home, parts) ==> home.len() < parts.len(),
    ensures
        seq_ends_with(spec_abbreviate(parts, home, budget), parts.last()->Normal_0@),
{
    let name = parts.last()->Normal_0@;
    let total = spec_path_length(parts);
    if spec_is_prefix(home, parts) {
        let lim0 = sat_sub(budget, 1);
        let len0 = sat_sub(total, spec_path_length(home));
        let under0 = len0 <= lim0;
        let head = spec_color(Color::PathDim) + (if under0 {
            spec_color(Color::PathBright)
        } else {
            Seq::<char>::empty()
        }) + "~"@;
        let rest = spec_abbrev_from(parts, home.len() as int, len0, lim0, under0, false);
        lemma_abbrev_from_ends_with_last(parts, home.len() as int, len0, lim0, under0, false);
        assert(spec_abbreviate(parts, home, budget) =~= head + rest);
        lemma_ends_with_extend(head, rest, name);
    } else {
        let rest = spec_abbrev_from(parts, 0, total, budget, false, false);
        lemma_abbrev_from_ends_with_last(parts, 0, total, budget, false, false);
        lemma_ends_with_extend(spec_color(Color::PathDim), rest, name);
    }
}

/// Abbreviation is a pure function of the path, the home prefix and the
/// budget: repeated invocations with the budget held constant and the path
/// unchanged produce the same display string, and so the same visible text
/// once color switches are stripped.
pub proof fn lemma_abbreviate_deterministic(
    parts: Seq<PathComponent>,
    home: Seq<PathComponent>,
    budget: nat,
    r1: Seq<char>,
    r2: Seq<char>,
)
    requires
        r1 == spec_abbreviate(parts, home, budget),
        r2 == spec_abbreviate(parts, home, budget),
    ensures
        r1 == r2,
{
}

} // verus!
