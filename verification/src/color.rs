use vstd::prelude::*;

verus! {

/// The palette of terminal colors the prompt uses. Each value stands for one
/// bash-quoted ANSI escape sequence; the `\[` / `\]` markers tell the shell
/// that the bytes between them take no space on screen, so line-width
/// calculations ignore the escape codes.
#[derive(Clone, Copy, PartialEq, Eq, Structural, Debug)]
pub enum Color {
    /// Dull red: alerts (detached head, behind upstream, stash annotation).
    Alert,
    /// Bright red: the privilege marker in the user segment.
    AlertBright,
    /// Green: a clean branch, or ahead of upstream.
    Success,
    /// Bright green: the user segment.
    UserHighlight,
    /// Yellow: both staged and unstaged changes present.
    Warning,
    /// Bright cyan: unstaged changes only.
    Info,
    /// Dark cyan: staged changes only.
    Secondary,
    /// Dull blue: the abbreviated prefix of the working-directory path.
    PathDim,
    /// Bright blue: the unabbreviated suffix of the working-directory path.
    PathBright,
    /// The host-name segment.
    Host,
    /// Reset to the terminal's default color.
    Reset,
}

/// The exact escape sequence a color renders as.
pub open spec fn spec_color(c: Color) -> Seq<char> {
    match c {
        Color::Alert => "\\[\\033[0;31m\\]"@,
        Color::AlertBright => "\\[\\033[1;31m\\]"@,
        Color::Success => "\\[\\033[0;32m\\]"@,
        Color::UserHighlight => "\\[\\033[1;32m\\]"@,
        Color::Warning => "\\[\\033[0;33m\\]"@,
        Color::Info => "\\[\\033[0;1;36m\\]"@,
        Color::Secondary => "\\[\\033[0;36m\\]"@,
        Color::PathDim => "\\[\\033[0;34m\\]"@,
        Color::PathBright => "\\[\\033[1;34m\\]"@,
        Color::Host => "\\[\\033[38;5;28m\\]"@,
        Color::Reset => "\\[\\033[0m\\]"@,
    }
}

/// Renders a color as its escape sequence.
pub fn color_code(c: Color) -> (r: &'static str)
    ensures
        r@ == spec_color(c),
{
    match c {
        Color::Alert => "\\[\\033[0;31m\\]",
        Color::AlertBright => "\\[\\033[1;31m\\]",
        Color::Success => "\\[\\033[0;32m\\]",
        Color::UserHighlight => "\\[\\033[1;32m\\]",
        Color::Warning => "\\[\\033[0;33m\\]",
        Color::Info => "\\[\\033[0;1;36m\\]",
        Color::Secondary => "\\[\\033[0;36m\\]",
        Color::PathDim => "\\[\\033[0;34m\\]",
        Color::PathBright => "\\[\\033[1;34m\\]",
        Color::Host => "\\[\\033[38;5;28m\\]",
        Color::Reset => "\\[\\033[0m\\]",
    }
}

} // verus!
