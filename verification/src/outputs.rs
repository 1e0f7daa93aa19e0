//! The description of all outputs: a text of lines, read in one pass.
//!
//! A header line opens the block of a monitor; the lines that follow fill the
//! monitor in, until the next header line or the end of the text closes the
//! block. Lines before the first header, and lines of no known kind, say
//! nothing. The first line that cannot be read fails the whole text.

use crate::error::{ParseError, ParseErrorView};
use crate::fields::{
    available_mode_of, header_of, logical_position_of, logical_size_of, mode_of,
    physical_size_of, read_available_mode, read_header, read_logical_position,
    read_logical_size, read_mode, read_physical_size, read_scale, read_transform,
    read_vrr_info, scale_of, transform_of, viewed, vrr_info_of,
};
use crate::monitor::{
    mode_views, monitor_views, Mode, ModeView, Monitor, MonitorView, PhysicalSize, Position, Size,
    Transform, VrrInfo,
};
use crate::text::{
    chars_of, contains, has_prefix, lines_of, next_line, occurs_in, starts_with, trim, trimmed,
};
use vstd::prelude::*;

verus! {

/// What a line is about.
#[derive(Debug, Clone, Copy, PartialEq, Eq)]
pub enum LineKind {
    Header,
    CurrentMode,
    VariableRefreshRate,
    PhysicalSize,
    LogicalPosition,
    LogicalSize,
    Scale,
    Transform,
    ModeEntry,
    Other,
}

/// The kind of a line. The label at the beginning of the trimmed line decides,
/// the labels taken in this order. A line without a label is an entry of the
/// list of modes where it holds `@` and one of the words `current` and
/// `preferred`.
#[verifier::opaque]
pub open spec fn kind_of(raw: Seq<char>) -> LineKind {
    let line = trimmed(raw);
    if has_prefix(line, "Output \""@) {
        LineKind::Header
    } else if has_prefix(line, "Current mode:"@) {
        LineKind::CurrentMode
    } else if has_prefix(line, "Variable refresh rate:"@) {
        LineKind::VariableRefreshRate
    } else if has_prefix(line, "Physical size:"@) {
        LineKind::PhysicalSize
    } else if has_prefix(line, "Logical position:"@) {
        LineKind::LogicalPosition
    } else if has_prefix(line, "Logical size:"@) {
        LineKind::LogicalSize
    } else if has_prefix(line, "Scale:"@) {
        LineKind::Scale
    } else if has_prefix(line, "Transform: "@) {
        LineKind::Transform
    } else if occurs_in(raw, "@"@) && (occurs_in(raw, "current"@) || occurs_in(raw, "preferred"@)) {
        LineKind::ModeEntry
    } else {
        LineKind::Other
    }
}

/// The block of a monitor while its lines are read: the monitor as far as it
/// is known, and the modes of its list so far.
#[derive(Debug, Clone, PartialEq, Eq)]
pub struct OpenBlock {
    pub monitor: Monitor,
    pub modes: Vec<Mode>,
}

/// An `OpenBlock` with its texts as sequences of characters.
pub struct OpenBlockView {
    pub monitor: MonitorView,
    pub modes: Seq<ModeView>,
}

impl View for OpenBlock {
    type V = OpenBlockView;

    open spec fn view(&self) -> OpenBlockView {
        OpenBlockView { monitor: self.monitor@, modes: mode_views(self.modes@) }
    }
}

/// Where the reading of a text stands: the monitors whose blocks are closed,
/// and the block that is open, if one is.
#[derive(Debug, Clone, PartialEq, Eq)]
pub struct Parser {
    pub monitors: Vec<Monitor>,
    pub block: Option<OpenBlock>,
}

/// A `Parser` with its texts as sequences of characters.
pub struct ParserView {
    pub monitors: Seq<MonitorView>,
    pub block: Option<OpenBlockView>,
}

impl View for Parser {
    type V = ParserView;

    open spec fn view(&self) -> ParserView {
        ParserView {
            monitors: monitor_views(self.monitors@),
            block: match self.block {
                Some(b) => Some(b@),
                None => None,
            },
        }
    }
}

/// What a line says to the block of its monitor.
#[derive(Debug, Clone, PartialEq, Eq)]
pub enum LineValue {
    CurrentMode(Mode),
    VariableRefreshRate(VrrInfo),
    PhysicalSize(PhysicalSize),
    LogicalPosition(Position),
    LogicalSize(Size),
    Scale(String),
    Transform(Transform),
    ModeEntry(Mode),
    Nothing,
}

/// A `LineValue` with its texts as sequences of characters.
pub enum LineValueView {
    CurrentMode(ModeView),
    VariableRefreshRate(VrrInfo),
    PhysicalSize(PhysicalSize),
    LogicalPosition(Position),
    LogicalSize(Size),
    Scale(Seq<char>),
    Transform(Transform),
    ModeEntry(ModeView),
    Nothing,
}

impl View for LineValue {
    type V = LineValueView;

    open spec fn view(&self) -> LineValueView {
        match self {
            LineValue::CurrentMode(mode) => LineValueView::CurrentMode(mode@),
            LineValue::VariableRefreshRate(vrr) => LineValueView::VariableRefreshRate(*vrr),
            LineValue::PhysicalSize(size) => LineValueView::PhysicalSize(*size),
            LineValue::LogicalPosition(position) => LineValueView::LogicalPosition(*position),
            LineValue::LogicalSize(size) => LineValueView::LogicalSize(*size),
            LineValue::Scale(scale) => LineValueView::Scale(scale@),
            LineValue::Transform(transform) => LineValueView::Transform(*transform),
            LineValue::ModeEntry(mode) => LineValueView::ModeEntry(mode@),
            LineValue::Nothing => LineValueView::Nothing,
        }
    }
}

/// What a line of the given kind says, or the failure that it gives. Each
/// kind of line is read in its trimmed form, but for the scale, which is read
/// from the line as it stands.
#[verifier::opaque]
pub open spec fn value_of(kind: LineKind, raw: Seq<char>) -> Result<LineValueView, ParseErrorView> {
    let line = trimmed(raw);
    match kind {
        LineKind::CurrentMode => match mode_of(line, true) {
            Ok(mode) => Ok(LineValueView::CurrentMode(mode)),
            Err(e) => Err(e),
        },
        LineKind::VariableRefreshRate => match vrr_info_of(line) {
            Ok(vrr) => Ok(LineValueView::VariableRefreshRate(vrr)),
            Err(e) => Err(e),
        },
        LineKind::PhysicalSize => match physical_size_of(line) {
            Ok(size) => Ok(LineValueView::PhysicalSize(size)),
            Err(e) => Err(e),
        },
        LineKind::LogicalPosition => match logical_position_of(line) {
            Ok(position) => Ok(LineValueView::LogicalPosition(position)),
            Err(e) => Err(e),
        },
        LineKind::LogicalSize => match logical_size_of(line) {
            Ok(size) => Ok(LineValueView::LogicalSize(size)),
            Err(e) => Err(e),
        },
        LineKind::Scale => match scale_of(raw) {
            Ok(scale) => Ok(LineValueView::Scale(scale)),
            Err(e) => Err(e),
        },
        LineKind::Transform => match transform_of(line) {
            Ok(transform) => Ok(LineValueView::Transform(transform)),
            Err(e) => Err(e),
        },
        LineKind::ModeEntry => match available_mode_of(line) {
            Ok(mode) => Ok(LineValueView::ModeEntry(mode)),
            Err(e) => Err(e),
        },
        LineKind::Header => Ok(LineValueView::Nothing),
        LineKind::Other => Ok(LineValueView::Nothing),
    }
}

impl OpenBlockView {
    /// The monitor of the block with the modes of its list.
    pub open spec fn closed(self) -> MonitorView {
        MonitorView { available_modes: self.modes, ..self.monitor }
    }

    /// The block with what a line says taken in: a field of the monitor is
    /// set anew, or a mode is added to the end of the list.
    pub open spec fn with(self, value: LineValueView) -> OpenBlockView {
        match value {
            LineValueView::CurrentMode(mode) => OpenBlockView {
                monitor: MonitorView { current_mode: mode, ..self.monitor },
                ..self
            },
            LineValueView::VariableRefreshRate(vrr) => OpenBlockView {
                monitor: MonitorView { variable_refresh_rate: vrr, ..self.monitor },
                ..self
            },
            LineValueView::PhysicalSize(size) => OpenBlockView {
                monitor: MonitorView { physical_size: size, ..self.monitor },
                ..self
            },
            LineValueView::LogicalPosition(position) => OpenBlockView {
                monitor: MonitorView { logical_position: position, ..self.monitor },
                ..self
            },
            LineValueView::LogicalSize(size) => OpenBlockView {
                monitor: MonitorView { logical_size: size, ..self.monitor },
                ..self
            },
            LineValueView::Scale(scale) => OpenBlockView {
                monitor: MonitorView { current_scale: scale, ..self.monitor },
                ..self
            },
            LineValueView::Transform(transform) => OpenBlockView {
                monitor: MonitorView { transform, ..self.monitor },
                ..self
            },
            LineValueView::ModeEntry(mode) => OpenBlockView { modes: self.modes.push(mode), ..self },
            LineValueView::Nothing => self,
        }
    }

    /// The block after a line of the given kind that is no header.
    pub open spec fn after(self, kind: LineKind, raw: Seq<char>) -> Result<
        OpenBlockView,
        ParseErrorView,
    > {
        match value_of(kind, raw) {
            Ok(value) => Ok(self.with(value)),
            Err(e) => Err(e),
        }
    }
}

impl ParserView {
    /// Nothing read yet.
    pub open spec fn start() -> ParserView {
        ParserView { monitors: Seq::empty(), block: None }
    }

    /// The monitors read so far, the one of the open block last.
    pub open spec fn finished(self) -> Seq<MonitorView> {
        match self.block {
            Some(b) => self.monitors.push(b.closed()),
            None => self.monitors,
        }
    }

    /// The state after one more line. A header line closes the open block and
    /// opens the next; any other line goes to the open block, and is passed
    /// over where no block is open.
    pub open spec fn after(self, raw: Seq<char>) -> Result<ParserView, ParseErrorView> {
        match kind_of(raw) {
            LineKind::Header => match header_of(trimmed(raw)) {
                Ok(monitor) => Ok(
                    ParserView {
                        monitors: self.finished(),
                        block: Some(OpenBlockView { monitor, modes: Seq::empty() }),
                    },
                ),
                Err(e) => Err(e),
            },
            kind => match self.block {
                Some(b) => match b.after(kind, raw) {
                    Ok(block) => Ok(ParserView { monitors: self.monitors, block: Some(block) }),
                    Err(e) => Err(e),
                },
                None => Ok(self),
            },
        }
    }

    /// The state after the given lines, or the failure of the first line that
    /// cannot be read.
    pub open spec fn after_all(self, lines: Seq<Seq<char>>) -> Result<ParserView, ParseErrorView>
        decreases lines.len(),
    {
        if lines.len() == 0 {
            Ok(self)
        } else {
            match self.after(lines[0]) {
                Ok(next) => next.after_all(lines.drop_first()),
                Err(e) => Err(e),
            }
        }
    }
}

/// The monitors that the text describes, in the order of their header lines,
/// or the failure of the first line that cannot be read.
pub open spec fn monitors_of(text: Seq<char>) -> Result<Seq<MonitorView>, ParseErrorView> {
    match ParserView::start().after_all(lines_of(text)) {
        Ok(end) => Ok(end.finished()),
        Err(e) => Err(e),
    }
}

/// The outcome of reading a text, seen as views.
pub open spec fn outcome(r: Result<Vec<Monitor>, ParseError>) -> Result<
    Seq<MonitorView>,
    ParseErrorView,
> {
    match r {
        Ok(monitors) => Ok(monitor_views(monitors@)),
        Err(e) => Err(e@),
    }
}

/// The kind of the line `raw`, whose trimmed form is `line`.
fn classify(raw: &[char], line: &[char]) -> (kind: LineKind)
    requires
        line@ == trimmed(raw@),
    ensures
        kind == kind_of(raw@),
{
    reveal(kind_of);
    if starts_with(line, "Output \"") {
        LineKind::Header
    } else if starts_with(line, "Current mode:") {
        LineKind::CurrentMode
    } else if starts_with(line, "Variable refresh rate:") {
        LineKind::VariableRefreshRate
    } else if starts_with(line, "Physical size:") {
        LineKind::PhysicalSize
    } else if starts_with(line, "Logical position:") {
        LineKind::LogicalPosition
    } else if starts_with(line, "Logical size:") {
        LineKind::LogicalSize
    } else if starts_with(line, "Scale:") {
        LineKind::Scale
    } else if starts_with(line, "Transform: ") {
        LineKind::Transform
    } else if contains(raw, "@") && (contains(raw, "current") || contains(raw, "preferred")) {
        LineKind::ModeEntry
    } else {
        LineKind::Other
    }
}

/// The kind of a line of the text.
pub fn line_kind(line: &str) -> (kind: LineKind)
    ensures
        kind == kind_of(line@),
{
    let chars = chars_of(line);
    let raw = chars.as_slice();
    classify(raw, trim(raw))
}

/// Reads what a line of the given kind says. `line` is the trimmed form of
/// `raw`.
fn read_value(kind: LineKind, raw: &[char], line: &[char]) -> (r: Result<LineValue, ParseError>)
    requires
        line@ == trimmed(raw@),
    ensures
        viewed(r) == value_of(kind, raw@),
{
    reveal(value_of);
    match kind {
        LineKind::CurrentMode => match read_mode(line, true) {
            Ok(mode) => Ok(LineValue::CurrentMode(mode)),
            Err(e) => Err(e),
        },
        LineKind::VariableRefreshRate => match read_vrr_info(line) {
            Ok(vrr) => Ok(LineValue::VariableRefreshRate(vrr)),
            Err(e) => Err(e),
        },
        LineKind::PhysicalSize => match read_physical_size(line) {
            Ok(size) => Ok(LineValue::PhysicalSize(size)),
            Err(e) => Err(e),
        },
        LineKind::LogicalPosition => match read_logical_position(line) {
            Ok(position) => Ok(LineValue::LogicalPosition(position)),
            Err(e) => Err(e),
        },
        LineKind::LogicalSize => match read_logical_size(line) {
            Ok(size) => Ok(LineValue::LogicalSize(size)),
            Err(e) => Err(e),
        },
        LineKind::Scale => match read_scale(raw) {
            Ok(scale) => Ok(LineValue::Scale(scale)),
            Err(e) => Err(e),
        },
        LineKind::Transform => match read_transform(line) {
            Ok(transform) => Ok(LineValue::Transform(transform)),
            Err(e) => Err(e),
        },
        LineKind::ModeEntry => match read_available_mode(line) {
            Ok(mode) => Ok(LineValue::ModeEntry(mode)),
            Err(e) => Err(e),
        },
        LineKind::Header => Ok(LineValue::Nothing),
        LineKind::Other => Ok(LineValue::Nothing),
    }
}

impl OpenBlock {
    /// Takes in what a line says.
    pub fn take(self, value: LineValue) -> (block: OpenBlock)
        ensures
            block@ == self@.with(value@),
    {
        let OpenBlock { monitor, modes } = self;
        let mut monitor = monitor;
        let mut modes = modes;
        match value {
            LineValue::CurrentMode(mode) => {
                monitor.current_mode = mode;
            },
            LineValue::VariableRefreshRate(vrr) => {
                monitor.variable_refresh_rate = vrr;
            },
            LineValue::PhysicalSize(size) => {
                monitor.physical_size = size;
            },
            LineValue::LogicalPosition(position) => {
                monitor.logical_position = position;
            },
            LineValue::LogicalSize(size) => {
                monitor.logical_size = size;
            },
            LineValue::Scale(scale) => {
                monitor.current_scale = scale;
            },
            LineValue::Transform(transform) => {
                monitor.transform = transform;
            },
            LineValue::ModeEntry(mode) => {
                proof {
                    assert(mode_views(modes@.push(mode)) == mode_views(modes@).push(mode@));
                }
                modes.push(mode);
            },
            LineValue::Nothing => {},
        }
        OpenBlock { monitor, modes }
    }

    /// Takes in a line of the given kind that is no header.
    fn feed(self, kind: LineKind, raw: &[char], line: &[char]) -> (r: Result<OpenBlock, ParseError>)
        requires
            line@ == trimmed(raw@),
        ensures
            viewed(r) == self@.after(kind, raw@),
    {
        match read_value(kind, raw, line) {
            Ok(value) => Ok(self.take(value)),
            Err(e) => Err(e),
        }
    }

    /// The monitor of the block with the modes of its list.
    pub fn close(self) -> (monitor: Monitor)
        ensures
            monitor@ == self@.closed(),
    {
        let OpenBlock { monitor, modes } = self;
        let mut monitor = monitor;
        monitor.available_modes = modes;
        monitor
    }
}

impl Parser {
    /// A parser that has read nothing yet.
    pub fn new() -> (parser: Parser)
        ensures
            parser@ == ParserView::start(),
    {
        let parser = Parser { monitors: Vec::new(), block: None };
        assert(parser@.monitors == Seq::<MonitorView>::empty());
        parser
    }

    /// Takes in one more line, given as its characters.
    pub(crate) fn feed_chars(self, raw: &[char]) -> (r: Result<Parser, ParseError>)
        ensures
            viewed(r) == self@.after(raw@),
    {
        let line = trim(raw);
        let kind = classify(raw, line);
        match kind {
            LineKind::Header => match read_header(line) {
                Ok(monitor) => {
                    let monitors = self.finish();
                    let block = OpenBlock { monitor, modes: Vec::new() };
                    assert(block@.modes == Seq::<ModeView>::empty());
                    Ok(Parser { monitors, block: Some(block) })
                },
                Err(e) => Err(e),
            },
            _ => {
                let Parser { monitors, block } = self;
                match block {
                    Some(b) => match b.feed(kind, raw, line) {
                        Ok(next) => Ok(Parser { monitors, block: Some(next) }),
                        Err(e) => Err(e),
                    },
                    None => Ok(Parser { monitors, block: None }),
                }
            },
        }
    }

    /// Takes in one more line of the text.
    pub fn feed(self, line: &str) -> (r: Result<Parser, ParseError>)
        ensures
            viewed(r) == self@.after(line@),
    {
        let chars = chars_of(line);
        self.feed_chars(chars.as_slice())
    }

    /// Closes the open block and hands out all monitors.
    pub fn finish(self) -> (monitors: Vec<Monitor>)
        ensures
            monitor_views(monitors@) == self@.finished(),
    {
        let Parser { monitors, block } = self;
        let mut monitors = monitors;
        match block {
            Some(b) => {
                let monitor = b.close();
                proof {
                    assert(monitor_views(monitors@.push(monitor)) == monitor_views(
                        monitors@,
                    ).push(monitor@));
                }
                monitors.push(monitor);
            },
            None => {},
        }
        monitors
    }
}

/// Reads the description of all outputs into one monitor for each header
/// line, in the order of the text. Fails with the failure of the first line
/// that cannot be read, and then hands out no monitor at all.
pub fn parse_niri_outputs(outputs: &str) -> (r: Result<Vec<Monitor>, ParseError>)
    ensures
        outcome(r) == monitors_of(outputs@),
{
    let chars = chars_of(outputs);
    let mut rest: &[char] = chars.as_slice();
    let mut parser = Parser::new();
    loop
        invariant
            ParserView::start().after_all(lines_of(outputs@)) == parser@.after_all(lines_of(rest@)),
        decreases rest@.len(),
    {
        match next_line(rest) {
            Some((line, tail)) => {
                proof {
                    let lines = lines_of(rest@);
                    assert(lines[0] == line@);
                    assert(lines.drop_first() == lines_of(tail@));
                }
                match parser.feed_chars(line) {
                    Ok(next) => {
                        parser = next;
                    },
                    Err(e) => {
                        return Err(e);
                    },
                }
                rest = tail;
            },
            None => {
                return Ok(parser.finish());
            },
        }
    }
}

} // verus!
