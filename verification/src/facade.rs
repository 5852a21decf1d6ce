//! The interface to the platform: what is asked of it, what it answers, and
//! how its answers are read.

use crate::error::{DisplayError, DisplayErrorView, FacadeCall};
use crate::model::{DisplayInfo, DisplayInfoView, DisplayMode};
use crate::notice::Notice;
use crate::number::{decimal, push_decimal};
use vstd::prelude::*;

verus! {

/// A call that the driver of a command is asked to make next.
#[derive(Clone, Debug, PartialEq, Eq)]
pub enum Request {
    /// Read the mode catalog and the current mode of a display.
    ReadModes { display_id: u32 },
    /// Read the current mode of a display.
    ReadCurrentMode { display_id: u32 },
    /// Switch a display to the mode with the given number.
    SetMode { display_id: u32, mode_number: u32 },
    /// Change position, rotation, mirroring and enabled state of a display;
    /// what is `None` stays as it is.
    Configure {
        display_id: u32,
        x: Option<i32>,
        y: Option<i32>,
        rotation: Option<u32>,
        mirror_of: Option<u32>,
        enabled: Option<bool>,
    },
    /// Nothing is left to do.
    Finished,
    /// The command failed; nothing more is done.
    Failed(DisplayError),
}

/// The mathematical value of a `Request`.
pub enum RequestView {
    ReadModes { display_id: u32 },
    ReadCurrentMode { display_id: u32 },
    SetMode { display_id: u32, mode_number: u32 },
    Configure {
        display_id: u32,
        x: Option<i32>,
        y: Option<i32>,
        rotation: Option<u32>,
        mirror_of: Option<u32>,
        enabled: Option<bool>,
    },
    Finished,
    Failed(DisplayErrorView),
}

impl View for Request {
    type V = RequestView;

    open spec fn view(&self) -> RequestView {
        match self {
            Request::ReadModes { display_id } => RequestView::ReadModes { display_id: *display_id },
            Request::ReadCurrentMode { display_id } => RequestView::ReadCurrentMode {
                display_id: *display_id,
            },
            Request::SetMode { display_id, mode_number } => RequestView::SetMode {
                display_id: *display_id,
                mode_number: *mode_number,
            },
            Request::Configure { display_id, x, y, rotation, mirror_of, enabled } => {
                RequestView::Configure {
                    display_id: *display_id,
                    x: *x,
                    y: *y,
                    rotation: *rotation,
                    mirror_of: *mirror_of,
                    enabled: *enabled,
                }
            },
            Request::Finished => RequestView::Finished,
            Request::Failed(error) => RequestView::Failed(error@),
        }
    }
}

impl RequestView {
    /// Whether the request asks for a call to the platform.
    pub open spec fn calls_platform(self) -> bool {
        !(self is Finished || self is Failed)
    }
}

/// What the platform answered to a request.
#[derive(Clone, Debug, PartialEq, Eq)]
pub enum Response {
    /// The answer to `ReadModes`.
    Modes { catalog: Vec<DisplayMode>, current: Option<DisplayMode> },
    /// The answer to `ReadCurrentMode`.
    CurrentMode(Option<DisplayMode>),
    /// The answer to `SetMode` and to `Configure`: zero for success, else an error code.
    Status(i32),
}

/// The mathematical value of a `Response`.
pub enum ResponseView {
    Modes { catalog: Seq<DisplayMode>, current: Option<DisplayMode> },
    CurrentMode(Option<DisplayMode>),
    Status(i32),
}

impl View for Response {
    type V = ResponseView;

    open spec fn view(&self) -> ResponseView {
        match self {
            Response::Modes { catalog, current } => ResponseView::Modes {
                catalog: catalog@,
                current: *current,
            },
            Response::CurrentMode(current) => ResponseView::CurrentMode(*current),
            Response::Status(code) => ResponseView::Status(*code),
        }
    }
}

/// What a command hands to its driver: the next request, and the notices
/// that the last answer gave rise to.
#[derive(Clone, Debug, PartialEq, Eq)]
pub struct Step {
    pub request: Request,
    pub news: Vec<Notice>,
}

/// What a status says of the call that returned it: success for zero, and
/// else a failure that carries the status.
pub open spec fn status_outcome(call: FacadeCall, status: i32) -> Result<(), DisplayErrorView> {
    if status == 0 {
        Ok(())
    } else {
        Err(DisplayErrorView::FacadeError { call, code: status })
    }
}

/// Reads the status that a call to the platform returned.
pub fn check_status(call: FacadeCall, status: i32) -> (outcome: Result<(), DisplayError>)
    ensures
        match outcome {
            Ok(_) => status_outcome(call, status) is Ok,
            Err(error) => status_outcome(call, status) == Err::<(), DisplayErrorView>(error@),
        },
{
    if status == 0 {
        Ok(())
    } else {
        Err(DisplayError::FacadeError { call, code: status })
    }
}

/// The arguments of the platform's call that changes position, rotation,
/// mirroring and enabled state: every one is passed, and a marker stands for
/// what is to stay as it is.
#[derive(Clone, Copy, Debug, PartialEq, Eq)]
pub struct ConfigureArguments {
    pub display_id: u32,
    pub x: i32,
    pub y: i32,
    pub rotation: i32,
    pub mirror_display_id: u32,
    pub enabled: bool,
}

/// A rotation as the platform's call takes it: the same 32 bits, read as a signed number.
pub open spec fn rotation_argument(degrees: u32) -> i32 {
    if degrees <= i32::MAX {
        degrees as i32
    } else {
        (degrees - 0x1_0000_0000) as i32
    }
}

/// The arguments for a change: -1 for a coordinate or a rotation that
/// stays, 0 for no mirror target, and enabled unless asked otherwise.
pub open spec fn configure_arguments(
    display_id: u32,
    x: Option<i32>,
    y: Option<i32>,
    rotation: Option<u32>,
    mirror_of: Option<u32>,
    enabled: Option<bool>,
) -> ConfigureArguments {
    ConfigureArguments {
        display_id,
        x: match x {
            Some(x) => x,
            None => -1i32,
        },
        y: match y {
            Some(y) => y,
            None => -1i32,
        },
        rotation: match rotation {
            Some(degrees) => rotation_argument(degrees),
            None => -1i32,
        },
        mirror_display_id: match mirror_of {
            Some(target) => target,
            None => 0,
        },
        enabled: match enabled {
            Some(enabled) => enabled,
            None => true,
        },
    }
}

/// The arguments with which the platform is asked to change a display.
pub fn configure_display(
    display_id: u32,
    x: Option<i32>,
    y: Option<i32>,
    rotation: Option<u32>,
    mirror_of: Option<u32>,
    enabled: Option<bool>,
) -> (arguments: ConfigureArguments)
    ensures
        arguments == configure_arguments(display_id, x, y, rotation, mirror_of, enabled),
{
    let rotation: i32 = match rotation {
        Some(degrees) => {
            if degrees <= 0x7FFF_FFFF {
                degrees as i32
            } else {
                (degrees as i64 - 0x1_0000_0000) as i32
            }
        },
        None => -1,
    };
    ConfigureArguments {
        display_id,
        x: match x {
            Some(x) => x,
            None => -1,
        },
        y: match y {
            Some(y) => y,
            None => -1,
        },
        rotation,
        mirror_display_id: match mirror_of {
            Some(target) => target,
            None => 0,
        },
        enabled: match enabled {
            Some(enabled) => enabled,
            None => true,
        },
    }
}

/// What the platform reports of a display, besides its current mode.
#[derive(Clone, Debug, PartialEq, Eq)]
pub struct DisplayReading {
    /// The position of the display's upper left corner.
    pub x: i32,
    pub y: i32,
    /// The numeric identifier of the main display.
    pub main_display: u32,
    /// Whether the display belongs to a set of displays that show the same picture.
    pub in_mirror_set: bool,
    /// The display whose picture this display shows; 0 where it shows its own.
    pub mirrors: u32,
    /// The persistent identifier, where the platform knows one.
    pub uuid: Option<String>,
    /// The kind of display, where the platform knows it.
    pub kind: Option<String>,
    pub serial: u32,
    pub rotation: u32,
    pub active: bool,
}

/// The record of display `display_id`, put together from what the platform
/// reported. A display whose persistent identifier is not known goes by its
/// number, and one whose kind is not known is of kind `Unknown`. A display
/// counts as a mirror where it shows the picture of another display.
pub open spec fn display_info(
    display_id: u32,
    x: i32,
    y: i32,
    main_display: u32,
    in_mirror_set: bool,
    mirrors: u32,
    uuid: Option<Seq<char>>,
    kind: Option<Seq<char>>,
    serial: u32,
    rotation: u32,
    active: bool,
    mode: DisplayMode,
) -> DisplayInfoView {
    DisplayInfoView {
        id: display_id,
        persistent_id: match uuid {
            Some(uuid) => uuid,
            None => decimal(display_id as nat),
        },
        contextual_id: display_id,
        serial,
        x,
        y,
        width: mode.width,
        height: mode.height,
        rotation,
        hz: mode.refresh_rate,
        depth: mode.depth,
        scaling: mode.is_scaled,
        mode_number: mode.mode_number,
        is_main: main_display == display_id,
        is_mirror: in_mirror_set && mirrors != 0,
        mirror_of: if in_mirror_set && mirrors != 0 {
            Some(mirrors)
        } else {
            None
        },
        enabled: active,
        display_type: match kind {
            Some(kind) => kind,
            None => "Unknown"@,
        },
    }
}

/// The record of display `display_id`; `None` for a display that reports no current mode.
pub fn get_display_info(
    display_id: u32,
    reading: &DisplayReading,
    mode: Option<DisplayMode>,
) -> (info: Option<DisplayInfo>)
    ensures
        mode is None <==> info is None,
        info matches Some(found) ==> {
            &&& found.wf()
            &&& found@ == display_info(
                display_id,
                reading.x,
                reading.y,
                reading.main_display,
                reading.in_mirror_set,
                reading.mirrors,
                crate::model::optional_text(reading.uuid),
                crate::model::optional_text(reading.kind),
                reading.serial,
                reading.rotation,
                reading.active,
                mode->0,
            )
        },
{
    let mode = match mode {
        Some(mode) => mode,
        None => {
            return None;
        },
    };
    let mirrors_other: bool = reading.in_mirror_set && reading.mirrors != 0;
    let persistent_id = match &reading.uuid {
        Some(uuid) => uuid.clone(),
        None => {
            let mut number = String::new();
            push_decimal(&mut number, display_id as u64);
            assert(number@ =~= decimal(display_id as nat));
            number
        },
    };
    let display_type = match &reading.kind {
        Some(kind) => kind.clone(),
        None => "Unknown".to_owned(),
    };
    Some(
        DisplayInfo {
            id: display_id,
            persistent_id,
            contextual_id: display_id,
            serial: reading.serial,
            x: reading.x,
            y: reading.y,
            width: mode.width,
            height: mode.height,
            rotation: reading.rotation,
            hz: mode.refresh_rate,
            depth: mode.depth,
            scaling: mode.is_scaled,
            mode_number: mode.mode_number,
            is_main: reading.main_display == display_id,
            is_mirror: mirrors_other,
            mirror_of: if mirrors_other {
                Some(reading.mirrors)
            } else {
                None
            },
            enabled: reading.active,
            display_type,
        },
    )
}

} // verus!
