//! The lines of a monitor's description, one reader for each kind of line.
//!
//! Each kind has a specification function from the line to what it says, or
//! to the failure that it gives, and an executable reader that returns just
//! that. A line is taken as it stands: the caller trims it where it wants to.

use crate::error::{failure, ErrorKind, Field, ParseError, ParseErrorView};
use crate::monitor::{
    default_mode, Mode, ModeView, Monitor, MonitorView, PhysicalSize, Position, Size, Transform,
    VrrInfo,
};
use crate::number::{i32_value, is_number_literal, number_literal, read_i32, read_u32, u32_value};
use crate::text::{
    between, chars_of, contains, first_piece, is_text, occurs_in, second_piece, split_at_first,
    split_once, string_of, take_between, take_first_piece, take_second_piece, trim, trimmed,
};
use vstd::prelude::*;
use vstd::slice::slice_subrange;

verus! {

/// A result whose error is seen as its view.
pub open spec fn plain<T>(r: Result<T, ParseError>) -> Result<T, ParseErrorView> {
    match r {
        Ok(v) => Ok(v),
        Err(e) => Err(e@),
    }
}

/// A result whose value and error are both seen as their views.
pub open spec fn viewed<T: View>(r: Result<T, ParseError>) -> Result<T::V, ParseErrorView> {
    match r {
        Ok(v) => Ok(v@),
        Err(e) => Err(e@),
    }
}

/// The value of a field: what stands behind the first `": "` of the line, up
/// to the next `": "` where there is one.
pub open spec fn label_value(line: Seq<char>) -> Option<Seq<char>> {
    second_piece(line, ": "@)
}

/// The text between the first double quote and the one that follows it.
pub open spec fn quoted(line: Seq<char>) -> Option<Seq<char>> {
    between(line, "\""@, "\""@)
}

/// The text between the first `(` and the `)` that follows it.
pub open spec fn parenthesized(line: Seq<char>) -> Option<Seq<char>> {
    between(line, "("@, ")"@)
}

/// A width and a height, written as two `u32` with an `x` between them.
pub open spec fn resolution_of(s: Seq<char>) -> Result<(u32, u32), ParseErrorView> {
    match split_at_first(s, "x"@) {
        None => failure(ErrorKind::FieldFormat, Field::Resolution, s),
        Some((w, h)) => match u32_value(w) {
            None => failure(ErrorKind::NumberFormat, Field::Width, w),
            Some(width) => match u32_value(h) {
                None => failure(ErrorKind::NumberFormat, Field::Height, h),
                Some(height) => Ok((width, height)),
            },
        },
    }
}

/// The monitor that a header line opens, with nothing known of it but its
/// two names: no mode, no size, at the origin, at scale `1`, not turned.
pub open spec fn new_monitor(name: Seq<char>, output_name: Seq<char>) -> MonitorView {
    MonitorView {
        name: Some(name),
        output_name,
        current_mode: default_mode(),
        variable_refresh_rate: VrrInfo { is_supported: false, is_enabled: false },
        physical_size: PhysicalSize { width_mm: 0, height_mm: 0 },
        logical_position: Position { x: 0, y: 0 },
        logical_size: Size { width: 0, height: 0 },
        current_scale: "1"@,
        transform: Transform::Normal,
        available_modes: Seq::empty(),
    }
}

/// What a header line says: the name in double quotes and the connector in
/// parentheses. A line that lacks either is a failure of structure.
pub open spec fn header_of(line: Seq<char>) -> Result<MonitorView, ParseErrorView> {
    match quoted(line) {
        None => failure(ErrorKind::Structure, Field::Name, line),
        Some(name) => match parenthesized(line) {
            None => failure(ErrorKind::Structure, Field::OutputName, line),
            Some(output_name) => Ok(new_monitor(name, output_name)),
        },
    }
}

/// What the line of the current mode says. Its value is a resolution, `" @ "`,
/// and a rate that ends before `" Hz"`. The mode is preferred where the line
/// holds the word `preferred`.
pub open spec fn mode_of(line: Seq<char>, is_current: bool) -> Result<ModeView, ParseErrorView> {
    match label_value(line) {
        None => failure(ErrorKind::FieldFormat, Field::CurrentMode, line),
        Some(value) => match second_piece(value, " @ "@) {
            None => failure(ErrorKind::FieldFormat, Field::RefreshRate, value),
            Some(after) => {
                let rate = first_piece(after, " Hz"@);
                match resolution_of(first_piece(value, " @ "@)) {
                    Err(e) => Err(e),
                    Ok((width, height)) => if is_number_literal(rate) {
                        Ok(
                            ModeView {
                                width,
                                height,
                                refresh_rate: rate,
                                is_current,
                                is_preferred: occurs_in(line, "preferred"@),
                            },
                        )
                    } else {
                        failure(ErrorKind::NumberFormat, Field::RefreshRate, rate)
                    },
                }
            },
        },
    }
}

/// What the line of the variable refresh rate says: supported where its value
/// holds `supported`, enabled where it holds `enabled`.
pub open spec fn vrr_info_of(line: Seq<char>) -> Result<VrrInfo, ParseErrorView> {
    match label_value(line) {
        None => failure(ErrorKind::FieldFormat, Field::VariableRefreshRate, line),
        Some(value) => Ok(
            VrrInfo {
                is_supported: occurs_in(value, "supported"@),
                is_enabled: occurs_in(value, "enabled"@),
            },
        ),
    }
}

/// What the line of the physical size says: the resolution that stands in its
/// value before `" mm"`.
pub open spec fn physical_size_of(line: Seq<char>) -> Result<PhysicalSize, ParseErrorView> {
    match label_value(line) {
        None => failure(ErrorKind::FieldFormat, Field::PhysicalSize, line),
        Some(value) => match resolution_of(first_piece(value, " mm"@)) {
            Err(e) => Err(e),
            Ok((width, height)) => Ok(PhysicalSize { width_mm: width, height_mm: height }),
        },
    }
}

/// What the line of the logical position says: two `i32` with `", "` between
/// them.
pub open spec fn logical_position_of(line: Seq<char>) -> Result<Position, ParseErrorView> {
    match label_value(line) {
        None => failure(ErrorKind::FieldFormat, Field::LogicalPosition, line),
        Some(value) => match split_at_first(value, ", "@) {
            None => failure(ErrorKind::FieldFormat, Field::LogicalPosition, value),
            Some((x, y)) => match i32_value(x) {
                None => failure(ErrorKind::NumberFormat, Field::PositionX, x),
                Some(px) => match i32_value(y) {
                    None => failure(ErrorKind::NumberFormat, Field::PositionY, y),
                    Some(py) => Ok(Position { x: px, y: py }),
                },
            },
        },
    }
}

/// What the line of the logical size says: the resolution that is its value.
pub open spec fn logical_size_of(line: Seq<char>) -> Result<Size, ParseErrorView> {
    match label_value(line) {
        None => failure(ErrorKind::FieldFormat, Field::LogicalSize, line),
        Some(value) => match resolution_of(value) {
            Err(e) => Err(e),
            Ok((width, height)) => Ok(Size { width, height }),
        },
    }
}

/// What the line of the scale says: the number literal that is its value.
pub open spec fn scale_of(line: Seq<char>) -> Result<Seq<char>, ParseErrorView> {
    match label_value(line) {
        None => failure(ErrorKind::FieldFormat, Field::Scale, line),
        Some(value) => if is_number_literal(value) {
            Ok(value)
        } else {
            failure(ErrorKind::NumberFormat, Field::Scale, value)
        },
    }
}

/// The transform of the given name. A name that is none of the eight stands
/// for no turn at all.
pub open spec fn transform_named(name: Seq<char>) -> Transform {
    if name == "normal"@ {
        Transform::Normal
    } else if name == "Rotated 90"@ {
        Transform::Rotated90
    } else if name == "Rotated 180"@ {
        Transform::Rotated180
    } else if name == "Rotated 270"@ {
        Transform::Rotated270
    } else if name == "Flipped"@ {
        Transform::Flipped
    } else if name == "Flipped 90"@ {
        Transform::Flipped90
    } else if name == "Flipped 180"@ {
        Transform::Flipped180
    } else if name == "Flipped 270"@ {
        Transform::Flipped270
    } else {
        Transform::Normal
    }
}

/// What the line of the transform says: the transform that its value names.
pub open spec fn transform_of(line: Seq<char>) -> Result<Transform, ParseErrorView> {
    match label_value(line) {
        None => failure(ErrorKind::FieldFormat, Field::Transform, line),
        Some(value) => Ok(transform_named(value)),
    }
}

/// The flags of a line in the list of modes: what stands in its parentheses,
/// and nothing where it has none.
pub open spec fn mode_flags(line: Seq<char>) -> Seq<char> {
    match parenthesized(line) {
        Some(flags) => flags,
        None => Seq::empty(),
    }
}

/// What a line in the list of modes says. Before the first `(` stand a
/// resolution, `@` and a rate, with whitespace around them at most. The mode
/// is current where the flags hold `current`, and preferred where they hold
/// `preferred`.
pub open spec fn available_mode_of(line: Seq<char>) -> Result<ModeView, ParseErrorView> {
    match split_at_first(trimmed(first_piece(line, "("@)), "@"@) {
        None => failure(ErrorKind::FieldFormat, Field::AvailableMode, line),
        Some((resolution, rate)) => match resolution_of(resolution) {
            Err(e) => Err(e),
            Ok((width, height)) => if is_number_literal(rate) {
                Ok(
                    ModeView {
                        width,
                        height,
                        refresh_rate: rate,
                        is_current: occurs_in(mode_flags(line), "current"@),
                        is_preferred: occurs_in(mode_flags(line), "preferred"@),
                    },
                )
            } else {
                failure(ErrorKind::NumberFormat, Field::RefreshRate, rate)
            },
        },
    }
}

/// Reads a resolution from its characters.
pub(crate) fn read_resolution(s: &[char]) -> (r: Result<(u32, u32), ParseError>)
    ensures
        plain(r) == resolution_of(s@),
{
    match split_once(s, "x") {
        None => Err(ParseError::new(ErrorKind::FieldFormat, Field::Resolution, s)),
        Some((w, h)) => match read_u32(w) {
            None => Err(ParseError::new(ErrorKind::NumberFormat, Field::Width, w)),
            Some(width) => match read_u32(h) {
                None => Err(ParseError::new(ErrorKind::NumberFormat, Field::Height, h)),
                Some(height) => Ok((width, height)),
            },
        },
    }
}

/// Reads a header line from its characters.
pub(crate) fn read_header(line: &[char]) -> (r: Result<Monitor, ParseError>)
    ensures
        viewed(r) == header_of(line@),
{
    match take_between(line, "\"", "\"") {
        None => Err(ParseError::new(ErrorKind::Structure, Field::Name, line)),
        Some(name) => match take_between(line, "(", ")") {
            None => Err(ParseError::new(ErrorKind::Structure, Field::OutputName, line)),
            Some(output_name) => {
                let monitor = Monitor {
                    name: Some(string_of(name)),
                    output_name: string_of(output_name),
                    current_mode: Mode::default(),
                    variable_refresh_rate: VrrInfo::default(),
                    physical_size: PhysicalSize::default(),
                    logical_position: Position::default(),
                    logical_size: Size::default(),
                    current_scale: "1".to_owned(),
                    transform: Transform::default(),
                    available_modes: Vec::new(),
                };
                assert(monitor@.available_modes == Seq::<ModeView>::empty());
                Ok(monitor)
            },
        },
    }
}

/// Reads the line of the current mode from its characters.
pub(crate) fn read_mode(line: &[char], is_current: bool) -> (r: Result<Mode, ParseError>)
    ensures
        viewed(r) == mode_of(line@, is_current),
{
    match take_second_piece(line, ": ") {
        None => Err(ParseError::new(ErrorKind::FieldFormat, Field::CurrentMode, line)),
        Some(value) => match take_second_piece(value, " @ ") {
            None => Err(ParseError::new(ErrorKind::FieldFormat, Field::RefreshRate, value)),
            Some(after) => {
                let rate = take_first_piece(after, " Hz");
                match read_resolution(take_first_piece(value, " @ ")) {
                    Err(e) => Err(e),
                    Ok((width, height)) => if number_literal(rate) {
                        Ok(
                            Mode {
                                width,
                                height,
                                refresh_rate: string_of(rate),
                                is_current,
                                is_preferred: contains(line, "preferred"),
                            },
                        )
                    } else {
                        Err(ParseError::new(ErrorKind::NumberFormat, Field::RefreshRate, rate))
                    },
                }
            },
        },
    }
}

/// Reads the line of the variable refresh rate from its characters.
pub(crate) fn read_vrr_info(line: &[char]) -> (r: Result<VrrInfo, ParseError>)
    ensures
        plain(r) == vrr_info_of(line@),
{
    match take_second_piece(line, ": ") {
        None => Err(ParseError::new(ErrorKind::FieldFormat, Field::VariableRefreshRate, line)),
        Some(value) => Ok(
            VrrInfo {
                is_supported: contains(value, "supported"),
                is_enabled: contains(value, "enabled"),
            },
        ),
    }
}

/// Reads the line of the physical size from its characters.
pub(crate) fn read_physical_size(line: &[char]) -> (r: Result<PhysicalSize, ParseError>)
    ensures
        plain(r) == physical_size_of(line@),
{
    match take_second_piece(line, ": ") {
        None => Err(ParseError::new(ErrorKind::FieldFormat, Field::PhysicalSize, line)),
        Some(value) => match read_resolution(take_first_piece(value, " mm")) {
            Err(e) => Err(e),
            Ok((width, height)) => Ok(PhysicalSize { width_mm: width, height_mm: height }),
        },
    }
}

/// Reads the line of the logical position from its characters.
pub(crate) fn read_logical_position(line: &[char]) -> (r: Result<Position, ParseError>)
    ensures
        plain(r) == logical_position_of(line@),
{
    match take_second_piece(line, ": ") {
        None => Err(ParseError::new(ErrorKind::FieldFormat, Field::LogicalPosition, line)),
        Some(value) => match split_once(value, ", ") {
            None => Err(ParseError::new(ErrorKind::FieldFormat, Field::LogicalPosition, value)),
            Some((x, y)) => match read_i32(x) {
                None => Err(ParseError::new(ErrorKind::NumberFormat, Field::PositionX, x)),
                Some(px) => match read_i32(y) {
                    None => Err(ParseError::new(ErrorKind::NumberFormat, Field::PositionY, y)),
                    Some(py) => Ok(Position { x: px, y: py }),
                },
            },
        },
    }
}

/// Reads the line of the logical size from its characters.
pub(crate) fn read_logical_size(line: &[char]) -> (r: Result<Size, ParseError>)
    ensures
        plain(r) == logical_size_of(line@),
{
    match take_second_piece(line, ": ") {
        None => Err(ParseError::new(ErrorKind::FieldFormat, Field::LogicalSize, line)),
        Some(value) => match read_resolution(value) {
            Err(e) => Err(e),
            Ok((width, height)) => Ok(Size { width, height }),
        },
    }
}

/// Reads the line of the scale from its characters.
pub(crate) fn read_scale(line: &[char]) -> (r: Result<String, ParseError>)
    ensures
        viewed(r) == scale_of(line@),
{
    match take_second_piece(line, ": ") {
        None => Err(ParseError::new(ErrorKind::FieldFormat, Field::Scale, line)),
        Some(value) => if number_literal(value) {
            Ok(string_of(value))
        } else {
            Err(ParseError::new(ErrorKind::NumberFormat, Field::Scale, value))
        },
    }
}

/// The transform that `name` names.
pub(crate) fn read_transform_name(name: &[char]) -> (t: Transform)
    ensures
        t == transform_named(name@),
{
    if is_text(name, "normal") {
        Transform::Normal
    } else if is_text(name, "Rotated 90") {
        Transform::Rotated90
    } else if is_text(name, "Rotated 180") {
        Transform::Rotated180
    } else if is_text(name, "Rotated 270") {
        Transform::Rotated270
    } else if is_text(name, "Flipped") {
        Transform::Flipped
    } else if is_text(name, "Flipped 90") {
        Transform::Flipped90
    } else if is_text(name, "Flipped 180") {
        Transform::Flipped180
    } else if is_text(name, "Flipped 270") {
        Transform::Flipped270
    } else {
        Transform::Normal
    }
}

/// Reads the line of the transform from its characters.
pub(crate) fn read_transform(line: &[char]) -> (r: Result<Transform, ParseError>)
    ensures
        plain(r) == transform_of(line@),
{
    match take_second_piece(line, ": ") {
        None => Err(ParseError::new(ErrorKind::FieldFormat, Field::Transform, line)),
        Some(value) => Ok(read_transform_name(value)),
    }
}

/// Reads a line in the list of modes from its characters.
pub(crate) fn read_available_mode(line: &[char]) -> (r: Result<Mode, ParseError>)
    ensures
        viewed(r) == available_mode_of(line@),
{
    let flags = match take_between(line, "(", ")") {
        Some(inner) => inner,
        None => slice_subrange(line, 0, 0),
    };
    assert(flags@ == mode_flags(line@));
    match split_once(trim(take_first_piece(line, "(")), "@") {
        None => Err(ParseError::new(ErrorKind::FieldFormat, Field::AvailableMode, line)),
        Some((resolution, rate)) => match read_resolution(resolution) {
            Err(e) => Err(e),
            Ok((width, height)) => if number_literal(rate) {
                Ok(
                    Mode {
                        width,
                        height,
                        refresh_rate: string_of(rate),
                        is_current: contains(flags, "current"),
                        is_preferred: contains(flags, "preferred"),
                    },
                )
            } else {
                Err(ParseError::new(ErrorKind::NumberFormat, Field::RefreshRate, rate))
            },
        },
    }
}

/// Reads a header line: the monitor that it opens, with its two names.
pub fn parse_monitor_header(header: &str) -> (r: Result<Monitor, ParseError>)
    ensures
        viewed(r) == header_of(header@),
{
    let chars = chars_of(header);
    read_header(chars.as_slice())
}

/// Reads the line of the current mode.
pub fn parse_mode(line: &str, is_current: bool) -> (r: Result<Mode, ParseError>)
    ensures
        viewed(r) == mode_of(line@, is_current),
{
    let chars = chars_of(line);
    read_mode(chars.as_slice(), is_current)
}

/// Reads the line of the variable refresh rate.
pub fn parse_vrr_info(line: &str) -> (r: Result<VrrInfo, ParseError>)
    ensures
        plain(r) == vrr_info_of(line@),
{
    let chars = chars_of(line);
    read_vrr_info(chars.as_slice())
}

/// Reads the line of the physical size.
pub fn parse_physical_size(size: &str) -> (r: Result<PhysicalSize, ParseError>)
    ensures
        plain(r) == physical_size_of(size@),
{
    let chars = chars_of(size);
    read_physical_size(chars.as_slice())
}

/// Reads the line of the logical position.
pub fn parse_logical_position(position: &str) -> (r: Result<Position, ParseError>)
    ensures
        plain(r) == logical_position_of(position@),
{
    let chars = chars_of(position);
    read_logical_position(chars.as_slice())
}

/// Reads the line of the logical size.
pub fn parse_logical_size(size: &str) -> (r: Result<Size, ParseError>)
    ensures
        plain(r) == logical_size_of(size@),
{
    let chars = chars_of(size);
    read_logical_size(chars.as_slice())
}

/// Reads the line of the scale: the number literal that it gives.
pub fn parse_scale(line: &str) -> (r: Result<String, ParseError>)
    ensures
        viewed(r) == scale_of(line@),
{
    let chars = chars_of(line);
    read_scale(chars.as_slice())
}

/// Reads the line of the transform.
pub fn parse_transform(transform: &str) -> (r: Result<Transform, ParseError>)
    ensures
        plain(r) == transform_of(transform@),
{
    let chars = chars_of(transform);
    read_transform(chars.as_slice())
}

/// Reads a line in the list of modes.
pub fn parse_available_modes(line: &str) -> (r: Result<Mode, ParseError>)
    ensures
        viewed(r) == available_mode_of(line@),
{
    let chars = chars_of(line);
    read_available_mode(chars.as_slice())
}

/// Reads a resolution: a width, `x`, and a height.
pub fn parse_resolution(resolution: &str) -> (r: Result<(u32, u32), ParseError>)
    ensures
        plain(r) == resolution_of(resolution@),
{
    let chars = chars_of(resolution);
    read_resolution(chars.as_slice())
}

} // verus!
