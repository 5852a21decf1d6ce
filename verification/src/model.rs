//! The records that describe displays, their modes and a requested change.

use crate::hertz::Hertz;
use vstd::prelude::*;

verus! {

/// One entry of a display's mode catalog.
#[derive(Clone, Copy, Debug, PartialEq, Eq, Structural)]
pub struct DisplayMode {
    pub width: u32,
    pub height: u32,
    pub refresh_rate: Hertz,
    pub depth: u32,
    pub mode_number: u32,
    pub is_stretched: bool,
    pub is_interlaced: bool,
    pub is_tv_mode: bool,
    pub is_safe_for_hardware: bool,
    pub is_scaled: bool,
}

/// A display as it was found at one moment.
#[derive(Clone, Debug, PartialEq, Eq)]
pub struct DisplayInfo {
    pub id: u32,
    pub persistent_id: String,
    pub contextual_id: u32,
    pub serial: u32,
    pub x: i32,
    pub y: i32,
    pub width: u32,
    pub height: u32,
    pub rotation: u32,
    pub hz: Hertz,
    pub depth: u32,
    pub scaling: bool,
    pub mode_number: u32,
    pub is_main: bool,
    pub is_mirror: bool,
    pub mirror_of: Option<u32>,
    pub enabled: bool,
    pub display_type: String,
}

/// A requested change to one display. Every field but `id` is optional, and
/// a field that is `None` leaves that setting of the display as it is.
#[derive(Clone, Debug, PartialEq, Eq)]
pub struct DisplayConfig {
    pub id: String,
    pub mode: Option<String>,
    pub resolution: Option<(u32, u32)>,
    pub hz: Option<Hertz>,
    pub color_depth: Option<u32>,
    pub scaling: Option<bool>,
    pub origin: Option<(i32, i32)>,
    pub degree: Option<u32>,
    pub mirror: Option<String>,
    pub enabled: Option<bool>,
}

/// The mathematical value of a `DisplayInfo`.
pub struct DisplayInfoView {
    pub id: u32,
    pub persistent_id: Seq<char>,
    pub contextual_id: u32,
    pub serial: u32,
    pub x: i32,
    pub y: i32,
    pub width: u32,
    pub height: u32,
    pub rotation: u32,
    pub hz: Hertz,
    pub depth: u32,
    pub scaling: bool,
    pub mode_number: u32,
    pub is_main: bool,
    pub is_mirror: bool,
    pub mirror_of: Option<u32>,
    pub enabled: bool,
    pub display_type: Seq<char>,
}

/// The mathematical value of a `DisplayConfig`.
pub struct DisplayConfigView {
    pub id: Seq<char>,
    pub mode: Option<Seq<char>>,
    pub resolution: Option<(u32, u32)>,
    pub hz: Option<Hertz>,
    pub color_depth: Option<u32>,
    pub scaling: Option<bool>,
    pub origin: Option<(i32, i32)>,
    pub degree: Option<u32>,
    pub mirror: Option<Seq<char>>,
    pub enabled: Option<bool>,
}

/// The characters of an optional string.
pub open spec fn optional_text(text: Option<String>) -> Option<Seq<char>> {
    match text {
        Some(t) => Some(t@),
        None => None,
    }
}

impl View for DisplayInfo {
    type V = DisplayInfoView;

    open spec fn view(&self) -> DisplayInfoView {
        DisplayInfoView {
            id: self.id,
            persistent_id: self.persistent_id@,
            contextual_id: self.contextual_id,
            serial: self.serial,
            x: self.x,
            y: self.y,
            width: self.width,
            height: self.height,
            rotation: self.rotation,
            hz: self.hz,
            depth: self.depth,
            scaling: self.scaling,
            mode_number: self.mode_number,
            is_main: self.is_main,
            is_mirror: self.is_mirror,
            mirror_of: self.mirror_of,
            enabled: self.enabled,
            display_type: self.display_type@,
        }
    }
}

impl DisplayInfoView {
    /// A display mirrors another exactly when it names the display it mirrors.
    pub open spec fn wf(self) -> bool {
        self.is_mirror <==> self.mirror_of is Some
    }
}

impl View for DisplayConfig {
    type V = DisplayConfigView;

    open spec fn view(&self) -> DisplayConfigView {
        DisplayConfigView {
            id: self.id@,
            mode: optional_text(self.mode),
            resolution: self.resolution,
            hz: self.hz,
            color_depth: self.color_depth,
            scaling: self.scaling,
            origin: self.origin,
            degree: self.degree,
            mirror: optional_text(self.mirror),
            enabled: self.enabled,
        }
    }
}

/// The values of the requests of `configs`, in order.
pub open spec fn config_views(configs: Seq<DisplayConfig>) -> Seq<DisplayConfigView> {
    Seq::new(configs.len(), |i: int| configs[i]@)
}

impl DisplayConfigView {
    /// The request that names no display and asks for nothing.
    pub open spec fn blank() -> DisplayConfigView {
        DisplayConfigView {
            id: Seq::empty(),
            mode: None,
            resolution: None,
            hz: None,
            color_depth: None,
            scaling: None,
            origin: None,
            degree: None,
            mirror: None,
            enabled: None,
        }
    }

    /// Whether the request selects a mode by resolution, refresh rate or colour depth.
    pub open spec fn asks_for_mode(self) -> bool {
        self.resolution is Some || self.hz is Some || self.color_depth is Some
    }

    /// Whether the request changes position, rotation, mirroring or the enabled state.
    pub open spec fn asks_for_geometry(self) -> bool {
        self.mirror is Some || self.origin is Some || self.degree is Some || self.enabled is Some
    }
}

impl DisplayInfo {
    /// Whether the record keeps the rule that ties `is_mirror` to `mirror_of`.
    pub open spec fn wf(&self) -> bool {
        self@.wf()
    }
}

impl DisplayConfig {
    /// The request that names no display and asks for nothing.
    pub fn blank() -> (config: DisplayConfig)
        ensures
            config@ == DisplayConfigView::blank(),
    {
        DisplayConfig {
            id: String::new(),
            mode: None,
            resolution: None,
            hz: None,
            color_depth: None,
            scaling: None,
            origin: None,
            degree: None,
            mirror: None,
            enabled: None,
        }
    }

    /// Whether the request selects a mode by resolution, refresh rate or colour depth.
    pub fn asks_for_mode(&self) -> (yes: bool)
        ensures
            yes == self@.asks_for_mode(),
    {
        self.resolution.is_some() || self.hz.is_some() || self.color_depth.is_some()
    }

    /// Whether the request changes position, rotation, mirroring or the enabled state.
    pub fn asks_for_geometry(&self) -> (yes: bool)
        ensures
            yes == self@.asks_for_geometry(),
    {
        self.mirror.is_some() || self.origin.is_some() || self.degree.is_some()
            || self.enabled.is_some()
    }
}

} // verus!
