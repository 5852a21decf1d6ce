//! What is reported to the user when a display was changed.

use crate::hertz::{whole_text, Hertz};
use crate::number::{decimal, push_decimal, push_signed, signed_decimal};
use vstd::prelude::*;

verus! {

/// One line of report on a change that was made, or on one that was not needed.
#[derive(Clone, Copy, Debug, PartialEq, Eq)]
pub enum Notice {
    /// A display was switched to a mode whose properties are known.
    ModeSet {
        display_id: u32,
        width: u32,
        height: u32,
        refresh_rate: Hertz,
        scaled: bool,
        mode_number: u32,
    },
    /// A display was switched to a mode of which only the number is known.
    ModeNumberSet { display_id: u32, mode_number: u32 },
    /// A display was moved.
    OriginSet { display_id: u32, x: i32, y: i32 },
    /// A display was rotated.
    RotationSet { display_id: u32, degrees: u32 },
    /// A display was made to mirror another.
    MirrorSet { display_id: u32, target: u32 },
    /// A display was enabled or disabled.
    EnabledSet { display_id: u32, enabled: bool },
    /// The notch of a display is in the state asked for already.
    NotchUnchanged { display_id: u32, width: u32, height: u32, refresh_rate: Hertz },
    /// The notch of a display was hidden or shown.
    NotchChanged {
        display_id: u32,
        hidden: bool,
        mode_number: u32,
        width: u32,
        height: u32,
        refresh_rate: Hertz,
    },
    /// The heights of the modes of a display differ by more than a notch would explain.
    NotchAdvisory { display_id: u32, spread: u32 },
}

/// A resolution and a refresh rate, as `WxH @ RHz`.
pub open spec fn geometry_text(width: u32, height: u32, refresh_rate: Hertz) -> Seq<char> {
    decimal(width as nat) + "x"@ + decimal(height as nat) + " @ "@ + whole_text(refresh_rate)
        + "Hz"@
}

impl Notice {
    /// Whether the notice is a warning rather than the report of a change.
    pub open spec fn warns(self) -> bool {
        self is NotchAdvisory
    }

    /// The sentence that the notice stands for.
    pub open spec fn text(self) -> Seq<char> {
        match self {
            Notice::ModeSet { display_id, width, height, refresh_rate, scaled, mode_number } => {
                "Set display "@ + decimal(display_id as nat) + " to "@ + geometry_text(
                    width,
                    height,
                    refresh_rate,
                ) + (if scaled {
                    " scaled"@
                } else {
                    " native"@
                }) + " (mode "@ + decimal(mode_number as nat) + ")"@
            },
            Notice::ModeNumberSet { display_id, mode_number } => {
                "Set display "@ + decimal(display_id as nat) + " to mode "@ + decimal(
                    mode_number as nat,
                )
            },
            Notice::OriginSet { display_id, x, y } => {
                "Set display "@ + decimal(display_id as nat) + " origin to ("@ + signed_decimal(
                    x as int,
                ) + ", "@ + signed_decimal(y as int) + ")"@
            },
            Notice::RotationSet { display_id, degrees } => {
                "Set display "@ + decimal(display_id as nat) + " rotation to "@ + decimal(
                    degrees as nat,
                ) + "°"@
            },
            Notice::MirrorSet { display_id, target } => {
                "Set display "@ + decimal(display_id as nat) + " to mirror display "@ + decimal(
                    target as nat,
                )
            },
            Notice::EnabledSet { display_id, enabled } => {
                "Set display "@ + decimal(display_id as nat) + " enabled: "@ + (if enabled {
                    "true"@
                } else {
                    "false"@
                })
            },
            Notice::NotchUnchanged { display_id, width, height, refresh_rate } => {
                "Display "@ + decimal(display_id as nat) + " is already in the target mode ("@
                    + geometry_text(width, height, refresh_rate) + ")"@
            },
            Notice::NotchChanged {
                display_id,
                hidden,
                mode_number,
                width,
                height,
                refresh_rate,
            } => {
                (if hidden {
                    "Notch hidden on display "@
                } else {
                    "Notch shown on display "@
                }) + decimal(display_id as nat) + " (switched to mode "@ + decimal(
                    mode_number as nat,
                ) + ": "@ + geometry_text(width, height, refresh_rate) + ")"@
            },
            Notice::NotchAdvisory { display_id, spread } => {
                "Warning: Display "@ + decimal(display_id as nat)
                    + " is not a built-in display. The height difference ("@ + decimal(
                    spread as nat,
                ) + "px) may not be notch-related."@
            },
        }
    }

    /// Whether the notice is a warning rather than the report of a change.
    pub fn is_warning(&self) -> (yes: bool)
        ensures
            yes == self.warns(),
    {
        match self {
            Notice::NotchAdvisory { .. } => true,
            _ => false,
        }
    }

    /// The sentence that the notice stands for.
    pub fn message(&self) -> (text: String)
        ensures
            text@ == self.text(),
    {
        let mut text = String::new();
        match *self {
            Notice::ModeSet { display_id, width, height, refresh_rate, scaled, mode_number } => {
                text.append("Set display ");
                push_decimal(&mut text, display_id as u64);
                text.append(" to ");
                push_geometry(&mut text, width, height, refresh_rate);
                if scaled {
                    text.append(" scaled");
                } else {
                    text.append(" native");
                }
                text.append(" (mode ");
                push_decimal(&mut text, mode_number as u64);
                text.append(")");
            },
            Notice::ModeNumberSet { display_id, mode_number } => {
                text.append("Set display ");
                push_decimal(&mut text, display_id as u64);
                text.append(" to mode ");
                push_decimal(&mut text, mode_number as u64);
            },
            Notice::OriginSet { display_id, x, y } => {
                text.append("Set display ");
                push_decimal(&mut text, display_id as u64);
                text.append(" origin to (");
                push_signed(&mut text, x as i64);
                text.append(", ");
                push_signed(&mut text, y as i64);
                text.append(")");
            },
            Notice::RotationSet { display_id, degrees } => {
                text.append("Set display ");
                push_decimal(&mut text, display_id as u64);
                text.append(" rotation to ");
                push_decimal(&mut text, degrees as u64);
                text.append("°");
            },
            Notice::MirrorSet { display_id, target } => {
                text.append("Set display ");
                push_decimal(&mut text, display_id as u64);
                text.append(" to mirror display ");
                push_decimal(&mut text, target as u64);
            },
            Notice::EnabledSet { display_id, enabled } => {
                text.append("Set display ");
                push_decimal(&mut text, display_id as u64);
                text.append(" enabled: ");
                if enabled {
                    text.append("true");
                } else {
                    text.append("false");
                }
            },
            Notice::NotchUnchanged { display_id, width, height, refresh_rate } => {
                text.append("Display ");
                push_decimal(&mut text, display_id as u64);
                text.append(" is already in the target mode (");
                push_geometry(&mut text, width, height, refresh_rate);
                text.append(")");
            },
            Notice::NotchChanged {
                display_id,
                hidden,
                mode_number,
                width,
                height,
                refresh_rate,
            } => {
                if hidden {
                    text.append("Notch hidden on display ");
                } else {
                    text.append("Notch shown on display ");
                }
                push_decimal(&mut text, display_id as u64);
                text.append(" (switched to mode ");
                push_decimal(&mut text, mode_number as u64);
                text.append(": ");
                push_geometry(&mut text, width, height, refresh_rate);
                text.append(")");
            },
            Notice::NotchAdvisory { display_id, spread } => {
                text.append("Warning: Display ");
                push_decimal(&mut text, display_id as u64);
                text.append(" is not a built-in display. The height difference (");
                push_decimal(&mut text, spread as u64);
                text.append("px) may not be notch-related.");
            },
        }
        assert(text@ =~= self.text());
        text
    }
}

/// Appends a resolution and a refresh rate to `out`.
fn push_geometry(out: &mut String, width: u32, height: u32, refresh_rate: Hertz)
    ensures
        final(out)@ == old(out)@ + geometry_text(width, height, refresh_rate),
{
    push_decimal(out, width as u64);
    out.append("x");
    push_decimal(out, height as u64);
    out.append(" @ ");
    refresh_rate.push_whole(out);
    out.append("Hz");
    assert(out@ =~= old(out)@ + geometry_text(width, height, refresh_rate));
}

} // verus!
