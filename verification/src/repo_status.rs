use vstd::prelude::*;
use crate::color::Color;
use crate::color::spec_color;
use crate::color::color_code;
use crate::decimal::spec_decimal;
use crate::decimal::usize_to_decimal;

verus! {

/// Per-entry status bits, as libgit2 defines them: an entry's status word has
/// one bit for each kind of difference, index-side (staged) differences in the
/// low group and working-tree-side (unstaged) differences in the high group.
pub const STATUS_INDEX_NEW: u32 = 1;

pub const STATUS_INDEX_MODIFIED: u32 = 2;

pub const STATUS_INDEX_DELETED: u32 = 4;

pub const STATUS_INDEX_RENAMED: u32 = 8;

pub const STATUS_INDEX_TYPECHANGE: u32 = 16;

pub const STATUS_WT_NEW: u32 = 128;

pub const STATUS_WT_MODIFIED: u32 = 256;

pub const STATUS_WT_DELETED: u32 = 512;

pub const STATUS_WT_TYPECHANGE: u32 = 1024;

pub const STATUS_WT_RENAMED: u32 = 2048;

/// The bits that mark an entry as staged: a difference between the index and
/// the last commit.
pub const STAGED_MASK: u32 = STATUS_INDEX_NEW | STATUS_INDEX_MODIFIED | STATUS_INDEX_DELETED
    | STATUS_INDEX_RENAMED | STATUS_INDEX_TYPECHANGE;

/// The bits that mark an entry as unstaged: a difference between the working
/// tree and the index.
pub const UNSTAGED_MASK: u32 = STATUS_WT_NEW | STATUS_WT_MODIFIED | STATUS_WT_DELETED
    | STATUS_WT_TYPECHANGE | STATUS_WT_RENAMED;

/// Everything the prompt wants to know of a repository, observed once per
/// invocation and resolved eagerly into plain values.
pub struct RepoFacts {
    /// The current branch's name, or nothing when the head is detached or
    /// names no branch.
    pub branch: Option<String>,
    /// Some entry differs between the index and the last commit.
    pub staged: bool,
    /// Some entry differs between the working tree and the index.
    pub unstaged: bool,
    /// Commits on the branch that its upstream lacks; zero when there is no
    /// upstream to compare against.
    pub ahead: usize,
    /// Commits on the upstream that the branch lacks; zero when there is no
    /// upstream to compare against.
    pub behind: usize,
    /// Saved stash entries.
    pub stash_count: usize,
    /// The repository has no working tree.
    pub bare: bool,
    /// The repository has no commits yet.
    pub empty: bool,
}

/// The left-to-right bitwise-or of all entries' status words.
pub open spec fn spec_or_all(s: Seq<u32>) -> u32
    decreases s.len(),
{
    if s.len() == 0 {
        0u32
    } else {
        spec_or_all(s.drop_last()) | s.last()
    }
}

/// Some entry has one of the mask's bits set.
pub open spec fn spec_any_masked(s: Seq<u32>, mask: u32) -> bool {
    exists|i: int| 0 <= i < s.len() && #[trigger] s[i] & mask != 0
}

proof fn lemma_or_all_masked(s: Seq<u32>, mask: u32)
    ensures
        (spec_or_all(s) & mask != 0) == spec_any_masked(s, mask),
    decreases s.len(),
{
    if s.len() == 0 {
        assert(0u32 & mask == 0) by (bit_vector);
    } else {
        let front = s.drop_last();
        lemma_or_all_masked(front, mask);
        let a = spec_or_all(front);
        let b = s.last();
        assert(((a | b) & mask != 0) == (a & mask != 0 || b & mask != 0)) by (bit_vector);
        if b & mask != 0 {
            assert(s[s.len() - 1] & mask != 0);
        }
        if spec_any_masked(front, mask) {
            let i = choose|i: int| 0 <= i < front.len() && #[trigger] front[i] & mask != 0;
            assert(s[i] & mask != 0);
        }
        if spec_any_masked(s, mask) && !(b & mask != 0) {
            let i = choose|i: int| 0 <= i < s.len() && #[trigger] s[i] & mask != 0;
            assert(front[i] & mask != 0);
        }
    }
}

/// Folds the per-entry status words into the two aggregate change flags:
/// whether any entry is staged, and whether any entry is unstaged.
pub fn change_flags(entry_statuses: &Vec<u32>) -> (r: (bool, bool))
    ensures
        r.0 == spec_any_masked(entry_statuses@, STAGED_MASK),
        r.1 == spec_any_masked(entry_statuses@, UNSTAGED_MASK),
{
    let mut aggregate: u32 = 0;
    let mut i: usize = 0;
    while i < entry_statuses.len()
        invariant
            i <= entry_statuses.len(),
            aggregate == spec_or_all(entry_statuses@.take(i as int)),
        decreases entry_statuses.len() - i,
    {
        proof {
            let t = entry_statuses@.take(i + 1);
            assert(t.drop_last() =~= entry_statuses@.take(i as int));
            assert(t.last() == entry_statuses@[i as int]);
        }
        aggregate = aggregate | entry_statuses[i];
        i += 1;
    }
    proof {
        assert(entry_statuses@.take(entry_statuses@.len() as int) =~= entry_statuses@);
        lemma_or_all_masked(entry_statuses@, STAGED_MASK);
        lemma_or_all_masked(entry_statuses@, UNSTAGED_MASK);
    }
    (aggregate & STAGED_MASK != 0, aggregate & UNSTAGED_MASK != 0)
}

/// The color of the branch label, decided in precedence order from the
/// change flags and the branch's presence.
pub open spec fn spec_branch_color(facts: RepoFacts) -> Color {
    if facts.branch is None {
        Color::Alert
    } else if facts.unstaged {
        if facts.staged {
            Color::Warning
        } else {
            Color::Info
        }
    } else {
        if facts.staged {
            Color::Secondary
        } else {
            Color::Success
        }
    }
}

/// The text inside the parentheses: the branch's name, or `detached`.
pub open spec fn spec_branch_label(facts: RepoFacts) -> Seq<char> {
    match facts.branch {
        Some(name) => name@,
        None => "detached"@,
    }
}

/// The divergence glyph: an ahead arrow when the branch is strictly ahead of
/// its upstream, a behind arrow when strictly behind, and nothing when the
/// two are equal or have diverged both ways.
pub open spec fn spec_divergence_part(facts: RepoFacts) -> Seq<char> {
    if facts.ahead > 0 && facts.behind == 0 {
        spec_color(Color::Success) + " \u{2191}\u{2191}"@
    } else if facts.ahead == 0 && facts.behind > 0 {
        spec_color(Color::Alert) + " \u{2193}\u{2193}\u{2193}\u{2193}"@
    } else {
        Seq::<char>::empty()
    }
}

/// The stash annotation: the entry count in parentheses, or nothing when
/// there is no stash entry.
pub open spec fn spec_stash_part(count: nat) -> Seq<char> {
    if count > 0 {
        " ("@ + spec_decimal(count) + ")"@
    } else {
        Seq::<char>::empty()
    }
}

/// The whole repository segment of the prompt.
pub open spec fn spec_colorize(facts: RepoFacts) -> Seq<char> {
    if facts.empty {
        spec_color(Color::Alert) + "(empty)"@ + spec_color(Color::Reset)
    } else if facts.bare {
        spec_color(Color::Alert) + "(bare repository)"@ + spec_color(Color::Reset)
    } else {
        spec_color(spec_branch_color(facts)) + "("@ + spec_branch_label(facts) + ")"@
            + spec_divergence_part(facts) + spec_color(Color::Alert)
            + spec_stash_part(facts.stash_count as nat) + spec_color(Color::Reset)
    }
}

/// Renders the repository facts as the prompt's repository segment.
pub fn colorize(facts: &RepoFacts) -> (r: String)
    ensures
        r@ == spec_colorize(*facts),
{
    if facts.empty {
        let mut out = String::from_str(color_code(Color::Alert));
        out.append("(empty)");
        out.append(color_code(Color::Reset));
        proof {
            assert(out@ =~= spec_colorize(*facts));
        }
        return out;
    }
    if facts.bare {
        let mut out = String::from_str(color_code(Color::Alert));
        out.append("(bare repository)");
        out.append(color_code(Color::Reset));
        proof {
            assert(out@ =~= spec_colorize(*facts));
        }
        return out;
    }
    let branch_color = if facts.branch.is_none() {
        Color::Alert
    } else if facts.unstaged {
        if facts.staged {
            Color::Warning
        } else {
            Color::Info
        }
    } else {
        if facts.staged {
            Color::Secondary
        } else {
            Color::Success
        }
    };
    let mut out = String::from_str(color_code(branch_color));
    out.append("(");
    match &facts.branch {
        Some(name) => out.append(name.as_str()),
        None => out.append("detached"),
    }
    out.append(")");
    if facts.ahead > 0 && facts.behind == 0 {
        out.append(color_code(Color::Success));
        out.append(" \u{2191}\u{2191}");
    } else if facts.ahead == 0 && facts.behind > 0 {
        out.append(color_code(Color::Alert));
        out.append(" \u{2193}\u{2193}\u{2193}\u{2193}");
    }
    out.append(color_code(Color::Alert));
    if facts.stash_count > 0 {
        out.append(" (");
        let digits = usize_to_decimal(facts.stash_count);
        out.append(digits.as_str());
        out.append(")");
    }
    out.append(color_code(Color::Reset));
    proof {
        assert(out@ =~= spec_colorize(*facts));
    }
    out
}

/// On a non-empty, non-bare repository with a branch and no staged or
/// unstaged change, no divergence and no stash entry, the segment is exactly
/// the branch name in parentheses in the success color, followed by nothing
/// visible (only the alert color that would precede a stash annotation, and
/// the reset).
pub proof fn lemma_clean_repo_segment(facts: RepoFacts)
    requires
        !facts.empty,
        !facts.bare,
        facts.branch is Some,
        !facts.staged,
        !facts.unstaged,
        facts.ahead == 0,
        facts.behind == 0,
        facts.stash_count == 0,
    ensures
        spec_colorize(facts) == spec_color(Color::Success) + "("@ + facts.branch->Some_0@ + ")"@
            + spec_color(Color::Alert) + spec_color(Color::Reset),
{
    assert(spec_colorize(facts) =~= spec_color(Color::Success) + "("@ + facts.branch->Some_0@
        + ")"@ + spec_color(Color::Alert) + spec_color(Color::Reset));
}

/// With no branch at all (a detached head), the label is the literal
/// `detached` and its color is the alert color.
pub proof fn lemma_detached_segment(facts: RepoFacts)
    requires
        facts.branch is None,
    ensures
        spec_branch_color(facts) == Color::Alert,
        spec_branch_label(facts) == "detached"@,
{
}

/// The divergence glyph appears exactly when the branch is strictly ahead or
/// strictly behind its upstream: ahead gets the ahead arrow in success
/// color, behind gets the behind arrow in alert color, and an equal or
/// diverged pair of counts gets nothing.
pub proof fn lemma_divergence_glyph(facts: RepoFacts)
    ensures
        facts.ahead > 0 && facts.behind == 0 ==> spec_divergence_part(facts) == spec_color(
            Color::Success,
        ) + " \u{2191}\u{2191}"@,
        facts.ahead == 0 && facts.behind > 0 ==> spec_divergence_part(facts) == spec_color(
            Color::Alert,
        ) + " \u{2193}\u{2193}\u{2193}\u{2193}"@,
        (facts.ahead == 0) == (facts.behind == 0) ==> spec_divergence_part(facts)
            == Seq::<char>::empty(),
{
}

/// The stash annotation appears exactly when there is a stash entry, and
/// carries the count's decimal rendering in parentheses.
pub proof fn lemma_stash_annotation(count: nat)
    ensures
        count > 0 ==> spec_stash_part(count) == " ("@ + spec_decimal(count) + ")"@,
        count == 0 ==> spec_stash_part(count) == Seq::<char>::empty(),
{
}

} // verus!
