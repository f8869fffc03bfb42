//! The screen: how table and description share it, and what the status bar
//! says.

use crate::text::{decimal, push_decimal};
use vstd::prelude::*;
use vstd::string::StringExecFns;

verus! {

/// How the table of the history and the description of a commit share the
/// screen.
#[derive(Clone, Copy, Debug, PartialEq, Eq, Structural)]
pub enum ScreenLayout {
    /// Side by side: the description is `diff_width` characters wide.
    Landscape { diff_width: usize },
    /// One above the other: the description is `diff_height` rows high.
    Portrait { diff_height: usize },
}

/// The layout for a screen of `x` characters by `y` rows: side by side where
/// the screen has at least three times as many characters as rows; the
/// description gets half of the screen, less one.
pub open spec fn layout_for(x: usize, y: usize) -> ScreenLayout {
    if x >= 3 * y {
        ScreenLayout::Landscape { diff_width: (x / 2 - 1) as usize }
    } else {
        ScreenLayout::Portrait { diff_height: (y / 2 - 1) as usize }
    }
}

/// The layout for a screen of `x` characters by `y` rows. The screen has at
/// least one row, and at least two where the two parts stand one above the
/// other.
pub fn screen_layout(x: usize, y: usize) -> (layout: ScreenLayout)
    requires
        y > 0,
        x < 3 * y ==> y >= 2,
    ensures
        layout == layout_for(x, y),
{
    if x / 3 >= y {
        ScreenLayout::Landscape { diff_width: x / 2 - 1 }
    } else {
        ScreenLayout::Portrait { diff_height: y / 2 - 1 }
    }
}

/// What the status bar says on the left: how many commits were found across
/// how many repositories, and, where commits are missing, how many.
pub open spec fn found(commits: nat, repos: nat, missing: nat) -> Seq<char> {
    let all = "Found "@ + decimal(commits) + " commits across "@ + decimal(repos)
        + " repositories"@;
    if missing > 0 {
        all + " ("@ + decimal(missing) + " commits could not be read)"@
    } else {
        all
    }
}

/// What the status bar says on the left: how many commits were found, and
/// across how many repositories. Commits that could not be read are not left
/// unsaid.
pub fn found_text(commits: usize, repos: usize, missing: usize) -> (text: String)
    ensures
        text@ == found(commits as nat, repos as nat, missing as nat),
{
    let mut text = "Found ".to_owned();
    push_decimal(&mut text, commits as u64);
    text.append(" commits across ");
    push_decimal(&mut text, repos as u64);
    text.append(" repositories");
    if missing > 0 {
        text.append(" (");
        push_decimal(&mut text, missing as u64);
        text.append(" commits could not be read)");
    }
    text
}

/// What the status bar says on the right.
pub open spec fn screen_size(x: nat, y: nat) -> Seq<char> {
    " ["@ + decimal(x) + "x"@ + decimal(y) + "]"@
}

/// What the status bar says on the right: the size of the screen.
pub fn screen_size_text(x: usize, y: usize) -> (text: String)
    ensures
        text@ == screen_size(x as nat, y as nat),
{
    let mut text = " [".to_owned();
    push_decimal(&mut text, x as u64);
    text.append("x");
    push_decimal(&mut text, y as u64);
    text.append("]");
    text
}

/// The gap between the left and the right text of a status bar of `width`
/// characters, where the texts leave one; `None` where they leave none, and
/// only the left text is shown.
pub fn status_gap(width: usize, left: usize, right: usize) -> (gap: Option<usize>)
    ensures
        width > left + right ==> gap == Some((width - left - right) as usize),
        width <= left + right ==> gap is None,
{
    if width > left && width - left > right {
        Some(width - left - right)
    } else {
        None
    }
}

} // verus!
