//! The ways in which a request can fail.

use crate::number::{decimal, push_decimal, push_signed, signed_decimal};
use vstd::prelude::*;

verus! {

/// The two calls that change a display.
#[derive(Clone, Copy, Debug, PartialEq, Eq, Structural)]
pub enum FacadeCall {
    SetMode,
    Configure,
}

/// Why a request was not carried out.
#[derive(Clone, Debug, PartialEq, Eq)]
pub enum DisplayError {
    /// A configuration string holds a key that is not known.
    InvalidConfig(String),
    /// A configuration string names no display.
    MissingIdentifier,
    /// No active display answers to the token.
    DisplayNotFound(String),
    /// The value of `mode` is no mode number.
    InvalidModeNumber(String),
    /// The display reports no current mode.
    CurrentModeUnavailable { display_id: u32 },
    /// No mode of the display meets the criteria.
    NoMatchingMode { display_id: u32 },
    /// No mode of the display resembles its current mode.
    NoSimilarModes { display_id: u32 },
    /// The modes that resemble the current one all have the same height.
    NotNotchCapable { display_id: u32, built_in: bool },
    /// A call that changes a display returned a status other than zero.
    FacadeError { call: FacadeCall, code: i32 },
}

/// The mathematical value of a `DisplayError`.
pub enum DisplayErrorView {
    InvalidConfig(Seq<char>),
    MissingIdentifier,
    DisplayNotFound(Seq<char>),
    InvalidModeNumber(Seq<char>),
    CurrentModeUnavailable { display_id: u32 },
    NoMatchingMode { display_id: u32 },
    NoSimilarModes { display_id: u32 },
    NotNotchCapable { display_id: u32, built_in: bool },
    FacadeError { call: FacadeCall, code: i32 },
}

impl View for DisplayError {
    type V = DisplayErrorView;

    open spec fn view(&self) -> DisplayErrorView {
        match self {
            DisplayError::InvalidConfig(key) => DisplayErrorView::InvalidConfig(key@),
            DisplayError::MissingIdentifier => DisplayErrorView::MissingIdentifier,
            DisplayError::DisplayNotFound(token) => DisplayErrorView::DisplayNotFound(token@),
            DisplayError::InvalidModeNumber(text) => DisplayErrorView::InvalidModeNumber(text@),
            DisplayError::CurrentModeUnavailable { display_id } => {
                DisplayErrorView::CurrentModeUnavailable { display_id: *display_id }
            },
            DisplayError::NoMatchingMode { display_id } => DisplayErrorView::NoMatchingMode {
                display_id: *display_id,
            },
            DisplayError::NoSimilarModes { display_id } => DisplayErrorView::NoSimilarModes {
                display_id: *display_id,
            },
            DisplayError::NotNotchCapable { display_id, built_in } => {
                DisplayErrorView::NotNotchCapable { display_id: *display_id, built_in: *built_in }
            },
            DisplayError::FacadeError { call, code } => DisplayErrorView::FacadeError {
                call: *call,
                code: *code,
            },
        }
    }
}

/// The value of an optional error.
pub open spec fn optional_error(error: Option<DisplayError>) -> Option<DisplayErrorView> {
    match error {
        Some(e) => Some(e@),
        None => None,
    }
}

impl DisplayErrorView {
    /// The sentence that describes the error.
    pub open spec fn message(self) -> Seq<char> {
        match self {
            DisplayErrorView::InvalidConfig(key) => "Unknown configuration key: "@ + key,
            DisplayErrorView::MissingIdentifier => "Display ID is required"@,
            DisplayErrorView::DisplayNotFound(token) => "Display "@ + token + " not found"@,
            DisplayErrorView::InvalidModeNumber(text) => "Invalid mode number: "@ + text,
            DisplayErrorView::CurrentModeUnavailable { display_id } => {
                "Could not get current mode for display "@ + decimal(display_id as nat)
            },
            DisplayErrorView::NoMatchingMode { display_id } => {
                "No matching mode found for display "@ + decimal(display_id as nat)
                    + " with specified parameters"@
            },
            DisplayErrorView::NoSimilarModes { display_id } => {
                "No similar modes found for display "@ + decimal(display_id as nat)
            },
            DisplayErrorView::NotNotchCapable { display_id, built_in } => {
                if built_in {
                    "Display "@ + decimal(display_id as nat)
                        + " does not appear to have a notch (no alternate height modes found)"@
                } else {
                    "Display "@ + decimal(display_id as nat)
                        + " is not a MacBook built-in display with a notch"@
                }
            },
            DisplayErrorView::FacadeError { call, code } => {
                match call {
                    FacadeCall::SetMode => "Failed to set display mode: error code "@
                        + signed_decimal(code as int),
                    FacadeCall::Configure => "Failed to configure display: error code "@
                        + signed_decimal(code as int),
                }
            },
        }
    }
}

impl DisplayError {
    /// A second value of the same error.
    pub fn duplicate(&self) -> (copy: DisplayError)
        ensures
            copy@ == self@,
    {
        match self {
            DisplayError::InvalidConfig(key) => DisplayError::InvalidConfig(key.clone()),
            DisplayError::MissingIdentifier => DisplayError::MissingIdentifier,
            DisplayError::DisplayNotFound(token) => DisplayError::DisplayNotFound(token.clone()),
            DisplayError::InvalidModeNumber(text) => DisplayError::InvalidModeNumber(text.clone()),
            DisplayError::CurrentModeUnavailable { display_id } => {
                DisplayError::CurrentModeUnavailable { display_id: *display_id }
            },
            DisplayError::NoMatchingMode { display_id } => DisplayError::NoMatchingMode {
                display_id: *display_id,
            },
            DisplayError::NoSimilarModes { display_id } => DisplayError::NoSimilarModes {
                display_id: *display_id,
            },
            DisplayError::NotNotchCapable { display_id, built_in } => {
                DisplayError::NotNotchCapable { display_id: *display_id, built_in: *built_in }
            },
            DisplayError::FacadeError { call, code } => DisplayError::FacadeError {
                call: *call,
                code: *code,
            },
        }
    }

    /// The sentence that describes the error.
    pub fn message(&self) -> (text: String)
        ensures
            text@ == self@.message(),
    {
        let mut text = String::new();
        match self {
            DisplayError::InvalidConfig(key) => {
                text.append("Unknown configuration key: ");
                text.append(key.as_str());
            },
            DisplayError::MissingIdentifier => {
                text.append("Display ID is required");
            },
            DisplayError::DisplayNotFound(token) => {
                text.append("Display ");
                text.append(token.as_str());
                text.append(" not found");
            },
            DisplayError::InvalidModeNumber(number) => {
                text.append("Invalid mode number: ");
                text.append(number.as_str());
            },
            DisplayError::CurrentModeUnavailable { display_id } => {
                text.append("Could not get current mode for display ");
                push_decimal(&mut text, *display_id as u64);
            },
            DisplayError::NoMatchingMode { display_id } => {
                text.append("No matching mode found for display ");
                push_decimal(&mut text, *display_id as u64);
                text.append(" with specified parameters");
            },
            DisplayError::NoSimilarModes { display_id } => {
                text.append("No similar modes found for display ");
                push_decimal(&mut text, *display_id as u64);
            },
            DisplayError::NotNotchCapable { display_id, built_in } => {
                text.append("Display ");
                push_decimal(&mut text, *display_id as u64);
                if *built_in {
                    text.append(
                        " does not appear to have a notch (no alternate height modes found)",
                    );
                } else {
                    text.append(" is not a MacBook built-in display with a notch");
                }
            },
            DisplayError::FacadeError { call, code } => {
                match call {
                    FacadeCall::SetMode => {
                        text.append("Failed to set display mode: error code ");
                    },
                    FacadeCall::Configure => {
                        text.append("Failed to configure display: error code ");
                    },
                }
                push_signed(&mut text, *code as i64);
            },
        }
        assert(text@ =~= self@.message());
        text
    }
}

} // verus!
