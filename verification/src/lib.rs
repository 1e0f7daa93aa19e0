//! Reads the text that the compositor prints for its outputs into monitor
//! records, and fixes the commands that ask the compositor for such text.

pub mod error;
pub mod fields;
pub mod ipc;
pub mod laws;
pub mod monitor;
pub mod number;
pub mod outputs;
pub mod text;

pub use error::{ErrorKind, Field, ParseError};
pub use fields::{
    parse_available_modes, parse_logical_position, parse_logical_size, parse_mode,
    parse_monitor_header, parse_physical_size, parse_resolution, parse_scale, parse_transform,
    parse_vrr_info,
};
pub use ipc::{
    execute_niri_command_with_executor, execute_niri_help, get_outputs, get_version,
    get_workspaces, CommandExecutor,
};
pub use monitor::{Mode, Monitor, PhysicalSize, Position, Size, Transform, VrrInfo};
pub use outputs::{line_kind, parse_niri_outputs, LineKind, LineValue, OpenBlock, Parser};
