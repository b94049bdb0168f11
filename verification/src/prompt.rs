use vstd::prelude::*;
use crate::color::Color;
use crate::color::spec_color;
use crate::color::color_code;

verus! {

/// The fixed prompt printed when the normal one cannot be built: no color
/// beyond a reset, the shell's own user, host and working-directory escapes.
pub open spec fn spec_fallback_prompt() -> Seq<char> {
    "\\[\\033[0m\\]\\u@\\h \\w"@
}

/// The minimal prompt to fall back on when path resolution fails.
pub fn fallback_prompt() -> (r: String)
    ensures
        r@ == spec_fallback_prompt(),
{
    String::from_str("\\[\\033[0m\\]\\u@\\h \\w")
}

/// The whole prompt line: the user segment with its privilege marker, the
/// host segment, the path segment, and the repository segment.
pub open spec fn spec_assemble_prompt(sudo: bool, path_segment: Seq<char>, vcs_segment: Seq<
    char,
>) -> Seq<char> {
    spec_color(Color::UserHighlight) + "\\u"@ + (if sudo {
        spec_color(Color::AlertBright) + "!"@
    } else {
        spec_color(Color::Host) + "@"@
    }) + spec_color(Color::Host) + "\\h "@ + path_segment + spec_color(Color::Reset) + " "@
        + vcs_segment
}

/// Concatenates the prompt from its segments. The privilege marker is a
/// bright `!` when elevated privileges are available and a plain `@`
/// otherwise; the path and repository segments come in already rendered.
pub fn assemble_prompt(sudo: bool, path_segment: &String, vcs_segment: &String) -> (r: String)
    ensures
        r@ == spec_assemble_prompt(sudo, path_segment@, vcs_segment@),
{
    let mut out = String::from_str(color_code(Color::UserHighlight));
    out.append("\\u");
    if sudo {
        out.append(color_code(Color::AlertBright));
        out.append("!");
    } else {
        out.append(color_code(Color::Host));
        out.append("@");
    }
    out.append(color_code(Color::Host));
    out.append("\\h ");
    out.append(path_segment.as_str());
    out.append(color_code(Color::Reset));
    out.append(" ");
    out.append(vcs_segment.as_str());
    proof {
        assert(out@ =~= spec_assemble_prompt(sudo, path_segment@, vcs_segment@));
    }
    out
}

/// Repository inspection is attempted only for paths on the same filesystem
/// device as the root directory; this is that decision.
pub fn on_root_filesystem(root_device: u64, path_device: u64) -> (r: bool)
    ensures
        r == (root_device == path_device),
{
    root_device == path_device
}

} // verus!
