use niri_monitor::{line_kind, parse_niri_outputs, ErrorKind, Field, LineKind, Parser, Transform};

#[test]
fn kinds_of_lines() {
    assert_eq!(line_kind("Output \"A\" (DP-1)"), LineKind::Header);
    assert_eq!(line_kind("   Output \"A\" (DP-1)  "), LineKind::Header);
    assert_eq!(line_kind("Output A"), LineKind::Other);
    assert_eq!(line_kind("  Current mode: 1x1 @ 1 Hz"), LineKind::CurrentMode);
    assert_eq!(line_kind("  Variable refresh rate: supported"), LineKind::VariableRefreshRate);
    assert_eq!(line_kind("  Physical size: 1x1 mm"), LineKind::PhysicalSize);
    assert_eq!(line_kind("  Logical position: 0, 0"), LineKind::LogicalPosition);
    assert_eq!(line_kind("  Logical size: 1x1"), LineKind::LogicalSize);
    assert_eq!(line_kind("  Scale: 1"), LineKind::Scale);
    assert_eq!(line_kind("  Transform: normal"), LineKind::Transform);
    assert_eq!(line_kind("  Transform:normal"), LineKind::Other);
    assert_eq!(line_kind("    1x1@1 (current)"), LineKind::ModeEntry);
    assert_eq!(line_kind("    1x1@1 (preferred)"), LineKind::ModeEntry);
    assert_eq!(line_kind("    1x1@1"), LineKind::Other);
    assert_eq!(line_kind("    current preferred"), LineKind::Other);
    assert_eq!(line_kind("  Available modes:"), LineKind::Other);
    assert_eq!(line_kind(""), LineKind::Other);
}

#[test]
fn label_goes_before_the_signs_of_a_mode_entry() {
    assert_eq!(line_kind("  Current mode: 1x1 @ 1 Hz (preferred)"), LineKind::CurrentMode);
    assert_eq!(line_kind("Output \"current@preferred\" (DP-1)"), LineKind::Header);
    assert_eq!(line_kind("  Scale: current@"), LineKind::Scale);
}

#[test]
fn parser_line_by_line() {
    let parser = Parser::new();
    assert!(parser.monitors.is_empty());
    assert!(parser.block.is_none());

    let parser = parser.feed("  Scale: ignored before any header").unwrap();
    assert!(parser.block.is_none());

    let parser = parser.feed("Output \"A\" (DP-1)").unwrap();
    assert!(parser.monitors.is_empty());
    assert_eq!(parser.block.as_ref().unwrap().monitor.output_name, "DP-1");

    let parser = parser.feed("    640x480@59.94 (current)").unwrap();
    let parser = parser.feed("  Transform: Rotated 270").unwrap();
    let parser = parser.feed("    800x600@60 (preferred)").unwrap();
    {
        let block = parser.block.as_ref().unwrap();
        assert_eq!(block.modes.len(), 2);
        assert!(block.monitor.available_modes.is_empty());
        assert_eq!(block.monitor.transform, Transform::Rotated270);
    }

    let parser = parser.feed("Output \"B\" (DP-2)").unwrap();
    assert_eq!(parser.monitors.len(), 1);
    assert_eq!(parser.monitors[0].available_modes.len(), 2);
    assert_eq!(parser.monitors[0].available_modes[0].width, 640);
    assert_eq!(parser.monitors[0].available_modes[1].width, 800);
    assert!(parser.block.as_ref().unwrap().modes.is_empty());

    let monitors = parser.finish();
    assert_eq!(monitors.len(), 2);
    assert_eq!(monitors[0].name, Some("A".to_string()));
    assert_eq!(monitors[1].name, Some("B".to_string()));
    assert!(monitors[1].available_modes.is_empty());
}

#[test]
fn parser_fails_at_a_bad_line() {
    let parser = Parser::new().feed("Output \"A\" (DP-1)").unwrap();
    let error = parser.feed("  Physical size: wide").unwrap_err();
    assert_eq!(error.kind, ErrorKind::FieldFormat);
    assert_eq!(error.field, Field::Resolution);
    assert_eq!(error.text, "wide");
}

#[test]
fn parser_on_lines_agrees_with_the_whole_text() {
    let text = "junk\nOutput \"A\" (DP-1)\n  Scale: 2\n  1x1@1 (current)\nOutput \"B\" (DP-2)\n  Logical position: -1, -2\n";
    let mut parser = Parser::new();
    for line in text.lines() {
        parser = parser.feed(line).unwrap();
    }
    assert_eq!(Ok(parser.finish()), parse_niri_outputs(text));
}

#[test]
fn open_block_takes_values_and_closes() {
    let monitor = niri_monitor::parse_monitor_header("Output \"A\" (DP-1)").unwrap();
    let block = niri_monitor::OpenBlock { monitor, modes: Vec::new() };
    let mode = niri_monitor::parse_available_modes("320x200@70 (current)").unwrap();
    let block = block.take(niri_monitor::LineValue::ModeEntry(mode.clone()));
    let block = block.take(niri_monitor::LineValue::Scale("3".to_string()));
    let block = block.take(niri_monitor::LineValue::Nothing);
    let block = block.take(niri_monitor::LineValue::Transform(Transform::Flipped180));
    let block = block.take(niri_monitor::LineValue::CurrentMode(mode.clone()));
    assert!(block.monitor.available_modes.is_empty());
    assert_eq!(block.modes, vec![mode.clone()]);
    let closed = block.close();
    assert_eq!(closed.available_modes, vec![mode.clone()]);
    assert_eq!(closed.current_mode, mode);
    assert_eq!(closed.current_scale, "3");
    assert_eq!(closed.transform, Transform::Flipped180);
    assert_eq!(closed.output_name, "DP-1");
}
