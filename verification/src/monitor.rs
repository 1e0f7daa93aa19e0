//! The records that describe a monitor.
//!
//! A number that the text writes with a fraction, the refresh rate of a mode
//! and the scale of a monitor, is kept as the text wrote it: a number literal
//! in the sense of `is_number_literal`.

use crate::number::is_number_literal;
use vstd::prelude::*;

verus! {

/// A resolution with its refresh rate.
#[derive(Debug, Clone, PartialEq, Eq)]
pub struct Mode {
    /// Width in pixels.
    pub width: u32,
    /// Height in pixels.
    pub height: u32,
    /// Refresh rate in Hz, as a number literal.
    pub refresh_rate: String,
    pub is_current: bool,
    pub is_preferred: bool,
}

/// A `Mode` with its refresh rate as a sequence of characters.
pub struct ModeView {
    pub width: u32,
    pub height: u32,
    pub refresh_rate: Seq<char>,
    pub is_current: bool,
    pub is_preferred: bool,
}

/// The size of the panel in millimetres.
#[derive(Debug, Clone, Copy, PartialEq, Eq)]
pub struct PhysicalSize {
    pub width_mm: u32,
    pub height_mm: u32,
}

/// A position in the compositor's logical space.
#[derive(Debug, Clone, Copy, PartialEq, Eq)]
pub struct Position {
    pub x: i32,
    pub y: i32,
}

/// A size in logical pixels.
#[derive(Debug, Clone, Copy, PartialEq, Eq)]
pub struct Size {
    pub width: u32,
    pub height: u32,
}

/// Whether the monitor can vary its refresh rate, and whether it does.
#[derive(Debug, Clone, Copy, PartialEq, Eq)]
pub struct VrrInfo {
    pub is_supported: bool,
    pub is_enabled: bool,
}

/// How the picture is turned or mirrored.
#[derive(Debug, Clone, Copy, PartialEq, Eq)]
pub enum Transform {
    Normal,
    Rotated90,
    Rotated180,
    Rotated270,
    Flipped,
    Flipped90,
    Flipped180,
    Flipped270,
}

/// One monitor as the compositor describes it.
#[derive(Debug, Clone, PartialEq, Eq)]
pub struct Monitor {
    /// The name of the make and model.
    pub name: Option<String>,
    /// The connector, such as `DP-2`.
    pub output_name: String,
    pub current_mode: Mode,
    pub variable_refresh_rate: VrrInfo,
    pub physical_size: PhysicalSize,
    pub logical_position: Position,
    pub logical_size: Size,
    /// The scale, as a number literal.
    pub current_scale: String,
    pub transform: Transform,
    /// The modes that the monitor offers, in the order of the text.
    pub available_modes: Vec<Mode>,
}

/// A `Monitor` with its texts as sequences of characters.
pub struct MonitorView {
    pub name: Option<Seq<char>>,
    pub output_name: Seq<char>,
    pub current_mode: ModeView,
    pub variable_refresh_rate: VrrInfo,
    pub physical_size: PhysicalSize,
    pub logical_position: Position,
    pub logical_size: Size,
    pub current_scale: Seq<char>,
    pub transform: Transform,
    pub available_modes: Seq<ModeView>,
}

impl View for Mode {
    type V = ModeView;

    open spec fn view(&self) -> ModeView {
        ModeView {
            width: self.width,
            height: self.height,
            refresh_rate: self.refresh_rate@,
            is_current: self.is_current,
            is_preferred: self.is_preferred,
        }
    }
}

/// The views of the modes, in their order.
pub open spec fn mode_views(modes: Seq<Mode>) -> Seq<ModeView> {
    modes.map_values(|m: Mode| m@)
}

/// The views of the monitors, in their order.
pub open spec fn monitor_views(monitors: Seq<Monitor>) -> Seq<MonitorView> {
    monitors.map_values(|m: Monitor| m@)
}

impl View for Monitor {
    type V = MonitorView;

    open spec fn view(&self) -> MonitorView {
        MonitorView {
            name: match self.name {
                Some(n) => Some(n@),
                None => None,
            },
            output_name: self.output_name@,
            current_mode: self.current_mode@,
            variable_refresh_rate: self.variable_refresh_rate,
            physical_size: self.physical_size,
            logical_position: self.logical_position,
            logical_size: self.logical_size,
            current_scale: self.current_scale@,
            transform: self.transform,
            available_modes: mode_views(self.available_modes@),
        }
    }
}

impl ModeView {
    /// The refresh rate is a number literal.
    pub open spec fn well_formed(self) -> bool {
        is_number_literal(self.refresh_rate)
    }
}

impl MonitorView {
    /// The scale and every refresh rate are number literals.
    pub open spec fn well_formed(self) -> bool {
        &&& is_number_literal(self.current_scale)
        &&& self.current_mode.well_formed()
        &&& forall|i: int|
            0 <= i < self.available_modes.len() ==> (#[trigger] self.available_modes[i]).well_formed()
    }
}

/// The mode of a monitor of which no mode is known: nothing by nothing at the
/// rate `0`, neither current nor preferred.
pub open spec fn default_mode() -> ModeView {
    ModeView { width: 0, height: 0, refresh_rate: "0"@, is_current: false, is_preferred: false }
}

impl Default for Mode {
    fn default() -> (mode: Mode)
        ensures
            mode@ == default_mode(),
    {
        Mode {
            width: 0,
            height: 0,
            refresh_rate: "0".to_owned(),
            is_current: false,
            is_preferred: false,
        }
    }
}

impl Default for PhysicalSize {
    fn default() -> (size: PhysicalSize)
        ensures
            size == (PhysicalSize { width_mm: 0, height_mm: 0 }),
    {
        PhysicalSize { width_mm: 0, height_mm: 0 }
    }
}

impl Default for Position {
    fn default() -> (position: Position)
        ensures
            position == (Position { x: 0, y: 0 }),
    {
        Position { x: 0, y: 0 }
    }
}

impl Default for Size {
    fn default() -> (size: Size)
        ensures
            size == (Size { width: 0, height: 0 }),
    {
        Size { width: 0, height: 0 }
    }
}

impl Default for VrrInfo {
    fn default() -> (vrr: VrrInfo)
        ensures
            vrr == (VrrInfo { is_supported: false, is_enabled: false }),
    {
        VrrInfo { is_supported: false, is_enabled: false }
    }
}

impl Default for Transform {
    fn default() -> (transform: Transform)
        ensures
            transform == Transform::Normal,
    {
        Transform::Normal
    }
}

} // verus!
