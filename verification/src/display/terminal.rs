//! Whether output is coloured, by the conventions of `NO_COLOR`,
//! `CLICOLOR_FORCE` and `CLICOLOR`.

use vstd::prelude::*;

use crate::text::same_text;

verus! {

/// Whether colours are used. `NO_COLOR`, once set, forbids them. Otherwise
/// `CLICOLOR_FORCE` demands them unless it is `0`; otherwise `CLICOLOR`
/// forbids them if it is `0`; otherwise they are used on a terminal only.
pub open spec fn use_colors(
    no_color: bool,
    clicolor_force: Option<Seq<char>>,
    clicolor: Option<Seq<char>>,
    is_terminal: bool,
) -> bool {
    if no_color {
        false
    } else if clicolor_force is Some && clicolor_force->0 != "0"@ {
        true
    } else if clicolor is Some && clicolor->0 == "0"@ {
        false
    } else {
        is_terminal
    }
}

/// Whether colours are used, given whether `NO_COLOR` is set, what
/// `CLICOLOR_FORCE` and `CLICOLOR` hold, and whether the output goes to a
/// terminal.
pub fn should_use_colors(
    no_color: bool,
    clicolor_force: Option<&str>,
    clicolor: Option<&str>,
    is_terminal: bool,
) -> (b: bool)
    ensures
        b == use_colors(
            no_color,
            match clicolor_force {
                Some(v) => Some(v@),
                None => None,
            },
            match clicolor {
                Some(v) => Some(v@),
                None => None,
            },
            is_terminal,
        ),
{
    if no_color {
        return false;
    }
    match clicolor_force {
        Some(val) => {
            if !same_text(val, "0") {
                return true;
            }
        },
        None => {},
    }
    match clicolor {
        Some(val) => {
            if same_text(val, "0") {
                return false;
            }
        },
        None => {},
    }
    is_terminal
}

} // verus!
