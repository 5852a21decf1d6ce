//! Display configuration engine.
//!
//! The library turns configuration strings into requests, resolves the
//! displays that they name, selects the mode that a request asks for, and
//! finds the mode that hides or shows the notch of a display. It never
//! touches a display itself: a command is a machine that names the call to
//! make next and takes the answer (`apply`, `notch_command`), and the
//! program around the library makes the calls.
//!
//! Every function has a contract over the mathematical value of its
//! arguments: text is a sequence of characters, a catalog a sequence of
//! modes, a refresh rate a whole number of millihertz.

pub mod apply;
pub mod error;
pub mod facade;
pub mod hertz;
pub mod matcher;
pub mod model;
pub mod notch;
pub mod notch_command;
pub mod notice;
pub mod number;
pub mod parser;
pub mod report;
pub mod resolver;
pub mod restore;
pub mod text;

pub use apply::{Applicator, Stage};
pub use error::{DisplayError, FacadeCall};
pub use facade::{
    check_status, configure_display, get_display_info, ConfigureArguments, DisplayReading,
    Request, Response, Step,
};
pub use hertz::Hertz;
pub use matcher::{find_mode, select_mode, ModeChoice, ModeCriteria};
pub use model::{DisplayConfig, DisplayInfo, DisplayMode};
pub use notch::{mode_family, plan_notch, sort_modes, NotchAction, NotchPlan};
pub use notch_command::{is_builtin_display, NotchCommand, NotchStage};
pub use notice::Notice;
pub use parser::{parse_batch, parse_config};
pub use report::{format_display_command, list_displays, show_modes, DisplayReport};
pub use resolver::DisplaySnapshot;
