//! The status line shown on screen: the current phase, and the colour the
//! player wears this round.
use vstd::prelude::*;

use crate::color::RoundColorState;
use crate::turn::{turn_label, GlobalTurnState};

verus! {

/// The name of the player's colour for mask index `i`; empty for an index
/// outside `0..3`.
pub open spec fn color_name(i: int) -> Seq<char> {
    if i == 0 {
        "Cyan"@
    } else if i == 1 {
        "Magenta"@
    } else if i == 2 {
        "Yellow"@
    } else {
        ""@
    }
}

/// The status line: the phase's name ("Status" without a phase), followed by
/// the player's colour in parentheses when there is one to name.
pub open spec fn status_line(color_index: Option<i32>, turn: Option<GlobalTurnState>) -> Seq<char> {
    let status = match turn {
        Some(t) => turn_label(t.turn_state),
        None => "Status"@,
    };
    let color = match color_index {
        Some(i) => color_name(i as int),
        None => ""@,
    };
    if color.len() == 0 {
        status
    } else {
        status + " ("@ + color + ")"@
    }
}

/// The name of the player's colour for a mask index; empty outside `0..3`.
pub fn player_color_name(index: i32) -> (r: &'static str)
    ensures
        r@ == color_name(index as int),
{
    match index {
        0 => "Cyan",
        1 => "Magenta",
        2 => "Yellow",
        _ => "",
    }
}

/// The status line for the given colour mask and phase, either of which may
/// be missing.
pub fn status_text(color_state: Option<&RoundColorState>, turn_state: Option<&GlobalTurnState>) -> (r: String)
    ensures
        r@ == status_line(
            match color_state {
                Some(c) => Some(c.index),
                None => None,
            },
            match turn_state {
                Some(t) => Some(*t),
                None => None,
            },
        ),
{
    let color_label = match color_state {
        Some(c) => player_color_name(c.index),
        None => "",
    };
    let status_label = match turn_state {
        Some(t) => t.turn_state.label(),
        None => "Status",
    };
    proof {
        reveal_strlit("");
    }
    let mut text = String::from_str(status_label);
    if !color_label.is_empty() {
        text.append(" (");
        text.append(color_label);
        text.append(")");
    }
    text
}

} // verus!
