use niri_monitor::{
    parse_available_modes, parse_logical_position, parse_logical_size, parse_mode,
    parse_monitor_header, parse_physical_size, parse_resolution, parse_scale, parse_transform,
    parse_vrr_info, ErrorKind, Field, ParseError, Transform,
};

fn failure(kind: ErrorKind, field: Field, text: &str) -> ParseError {
    ParseError { kind, field, text: text.to_string() }
}

#[test]
fn mode_line_with_current_flag() {
    let mode = parse_available_modes("1920x1080@60.000 (current)").unwrap();
    assert!(mode.is_current);
    assert!(!mode.is_preferred);
    assert_eq!(mode.width, 1920);
    assert_eq!(mode.height, 1080);
    assert_eq!(mode.refresh_rate, "60.000");
    assert_eq!(mode.refresh_rate.parse::<f32>().unwrap(), 60.0);
}

#[test]
fn mode_line_with_preferred_flag() {
    let mode = parse_available_modes("1920x1080@60.000 (preferred)").unwrap();
    assert!(!mode.is_current);
    assert!(mode.is_preferred);
}

#[test]
fn mode_line_with_no_flag() {
    let mode = parse_available_modes("1920x1080@74.973").unwrap();
    assert!(!mode.is_current);
    assert!(!mode.is_preferred);
    assert_eq!(mode.refresh_rate.parse::<f32>().unwrap(), 74.973);
}

#[test]
fn mode_line_with_both_flags() {
    let mode = parse_available_modes("1920x1080@60.000 (current, preferred)").unwrap();
    assert!(mode.is_current);
    assert!(mode.is_preferred);
}

#[test]
fn mode_line_flags_count_in_parentheses_only() {
    let mode = parse_available_modes("1x2@3 (nothing) current preferred").unwrap();
    assert!(!mode.is_current);
    assert!(!mode.is_preferred);
    let open = parse_available_modes("1x2@3 (current").unwrap();
    assert!(!open.is_current);
}

#[test]
fn mode_line_is_trimmed_before_the_parenthesis() {
    let mode = parse_available_modes("  800x600@75  (preferred)").unwrap();
    assert_eq!(mode.width, 800);
    assert_eq!(mode.height, 600);
    assert_eq!(mode.refresh_rate, "75");
}

#[test]
fn mode_line_failures() {
    assert_eq!(
        parse_available_modes("1920x1080 (current)"),
        Err(failure(ErrorKind::FieldFormat, Field::AvailableMode, "1920x1080 (current)"))
    );
    assert_eq!(
        parse_available_modes("1920@60 (current)"),
        Err(failure(ErrorKind::FieldFormat, Field::Resolution, "1920"))
    );
    assert_eq!(
        parse_available_modes("ax1080@60"),
        Err(failure(ErrorKind::NumberFormat, Field::Width, "a"))
    );
    assert_eq!(
        parse_available_modes("1920x@60"),
        Err(failure(ErrorKind::NumberFormat, Field::Height, ""))
    );
    assert_eq!(
        parse_available_modes("1920x1080@60 Hz"),
        Err(failure(ErrorKind::NumberFormat, Field::RefreshRate, "60 Hz"))
    );
}

#[test]
fn logical_position_with_negative_coordinate() {
    let position = parse_logical_position("Logical position: -100, 50").unwrap();
    assert_eq!(position.x, -100);
    assert_eq!(position.y, 50);
}

#[test]
fn logical_position_at_the_limits() {
    let position = parse_logical_position("Logical position: -2147483648, 2147483647").unwrap();
    assert_eq!(position.x, i32::MIN);
    assert_eq!(position.y, i32::MAX);
    assert_eq!(
        parse_logical_position("Logical position: 2147483648, 0"),
        Err(failure(ErrorKind::NumberFormat, Field::PositionX, "2147483648"))
    );
    assert_eq!(
        parse_logical_position("Logical position: 0, -2147483649"),
        Err(failure(ErrorKind::NumberFormat, Field::PositionY, "-2147483649"))
    );
}

#[test]
fn logical_position_failures() {
    assert_eq!(
        parse_logical_position("Logical position:1, 2"),
        Err(failure(ErrorKind::FieldFormat, Field::LogicalPosition, "Logical position:1, 2"))
    );
    assert_eq!(
        parse_logical_position("Logical position: 1,2"),
        Err(failure(ErrorKind::FieldFormat, Field::LogicalPosition, "1,2"))
    );
    assert_eq!(
        parse_logical_position("Logical position: 1,  2"),
        Err(failure(ErrorKind::FieldFormat, Field::LogicalPosition, "1,  2"))
            .or(Err(failure(ErrorKind::NumberFormat, Field::PositionY, " 2")))
    );
    assert_eq!(
        parse_logical_position("Logical position: x, 2"),
        Err(failure(ErrorKind::NumberFormat, Field::PositionX, "x"))
    );
}

#[test]
fn transform_names() {
    assert_eq!(parse_transform("Transform: normal"), Ok(Transform::Normal));
    assert_eq!(parse_transform("Transform: Rotated 90"), Ok(Transform::Rotated90));
    assert_eq!(parse_transform("Transform: Rotated 180"), Ok(Transform::Rotated180));
    assert_eq!(parse_transform("Transform: Rotated 270"), Ok(Transform::Rotated270));
    assert_eq!(parse_transform("Transform: Flipped"), Ok(Transform::Flipped));
    assert_eq!(parse_transform("Transform: Flipped 90"), Ok(Transform::Flipped90));
    assert_eq!(parse_transform("Transform: Flipped 180"), Ok(Transform::Flipped180));
    assert_eq!(parse_transform("Transform: Flipped 270"), Ok(Transform::Flipped270));
}

#[test]
fn unknown_transform_is_normal() {
    assert_eq!(parse_transform("Transform: Sheared 30"), Ok(Transform::Normal));
    assert_eq!(parse_transform("Transform: Normal"), Ok(Transform::Normal));
    assert_eq!(parse_transform("Transform: flipped"), Ok(Transform::Normal));
    assert_eq!(parse_transform("Transform: Flipped "), Ok(Transform::Normal));
    assert_eq!(parse_transform("Transform: "), Ok(Transform::Normal));
}

#[test]
fn transform_without_value_fails() {
    assert_eq!(
        parse_transform("Transform"),
        Err(failure(ErrorKind::FieldFormat, Field::Transform, "Transform"))
    );
}

#[test]
fn current_mode_line() {
    let mode = parse_mode("Current mode: 2560x1080 @ 144.001 Hz (preferred)", true).unwrap();
    assert_eq!(mode.width, 2560);
    assert_eq!(mode.height, 1080);
    assert_eq!(mode.refresh_rate, "144.001");
    assert_eq!(mode.refresh_rate.parse::<f32>().unwrap(), 144.001);
    assert!(mode.is_current);
    assert!(mode.is_preferred);

    let plain = parse_mode("Current mode: 1920x1080 @ 60.000 Hz", false).unwrap();
    assert!(!plain.is_current);
    assert!(!plain.is_preferred);
}

#[test]
fn current_mode_failures() {
    assert_eq!(
        parse_mode("Current mode:1920x1080", true),
        Err(failure(ErrorKind::FieldFormat, Field::CurrentMode, "Current mode:1920x1080"))
    );
    assert_eq!(
        parse_mode("Current mode: 1920x1080@60 Hz", true),
        Err(failure(ErrorKind::FieldFormat, Field::RefreshRate, "1920x1080@60 Hz"))
    );
    assert_eq!(
        parse_mode("Current mode: 1920 @ 60 Hz", true),
        Err(failure(ErrorKind::FieldFormat, Field::Resolution, "1920"))
    );
    assert_eq!(
        parse_mode("Current mode: 1920x1080 @ sixty Hz", true),
        Err(failure(ErrorKind::NumberFormat, Field::RefreshRate, "sixty"))
    );
    assert_eq!(
        parse_mode("Current mode: 1920x1080 @ 60", true).map(|m| m.refresh_rate),
        Ok("60".to_string())
    );
}

#[test]
fn vrr_lines() {
    let vrr = parse_vrr_info("Variable refresh rate: supported, disabled").unwrap();
    assert!(vrr.is_supported);
    assert!(!vrr.is_enabled);
    let on = parse_vrr_info("Variable refresh rate: supported, enabled").unwrap();
    assert!(on.is_supported);
    assert!(on.is_enabled);
    let none = parse_vrr_info("Variable refresh rate: not supported").unwrap();
    assert!(none.is_supported);
    assert!(!none.is_enabled);
    let other = parse_vrr_info("Variable refresh rate: unknown").unwrap();
    assert!(!other.is_supported);
    assert!(!other.is_enabled);
    assert_eq!(
        parse_vrr_info("Variable refresh rate:"),
        Err(failure(ErrorKind::FieldFormat, Field::VariableRefreshRate, "Variable refresh rate:"))
    );
}

#[test]
fn physical_size_lines() {
    let size = parse_physical_size("Physical size: 800x340 mm").unwrap();
    assert_eq!(size.width_mm, 800);
    assert_eq!(size.height_mm, 340);
    let zero = parse_physical_size("Physical size: 0x0 mm").unwrap();
    assert_eq!(zero.width_mm, 0);
    assert_eq!(zero.height_mm, 0);
    let bare = parse_physical_size("Physical size: 5x6").unwrap();
    assert_eq!(bare.width_mm, 5);
    assert_eq!(bare.height_mm, 6);
    assert_eq!(
        parse_physical_size("Physical size 800x340 mm"),
        Err(failure(ErrorKind::FieldFormat, Field::PhysicalSize, "Physical size 800x340 mm"))
    );
    assert_eq!(
        parse_physical_size("Physical size: unknown"),
        Err(failure(ErrorKind::FieldFormat, Field::Resolution, "unknown"))
    );
    assert_eq!(
        parse_physical_size("Physical size: 800x340mm"),
        Err(failure(ErrorKind::NumberFormat, Field::Height, "340mm"))
    );
}

#[test]
fn logical_size_lines() {
    let size = parse_logical_size("Logical size: 2560x1080").unwrap();
    assert_eq!(size.width, 2560);
    assert_eq!(size.height, 1080);
    assert_eq!(
        parse_logical_size("Logical size"),
        Err(failure(ErrorKind::FieldFormat, Field::LogicalSize, "Logical size"))
    );
    assert_eq!(
        parse_logical_size("Logical size: 2560x-1"),
        Err(failure(ErrorKind::NumberFormat, Field::Height, "-1"))
    );
}

#[test]
fn value_ends_at_the_next_separator() {
    let size = parse_logical_size("Logical size: 10x20: 30x40").unwrap();
    assert_eq!(size.width, 10);
    assert_eq!(size.height, 20);
}

#[test]
fn resolution_values() {
    assert_eq!(parse_resolution("2560x1080"), Ok((2560, 1080)));
    assert_eq!(parse_resolution("0x0"), Ok((0, 0)));
    assert_eq!(parse_resolution("+7x+8"), Ok((7, 8)));
    assert_eq!(parse_resolution("007x0008"), Ok((7, 8)));
    assert_eq!(parse_resolution("4294967295x1"), Ok((u32::MAX, 1)));
}

#[test]
fn resolution_failures() {
    assert_eq!(
        parse_resolution("2560 1080"),
        Err(failure(ErrorKind::FieldFormat, Field::Resolution, "2560 1080"))
    );
    assert_eq!(
        parse_resolution("4294967296x1"),
        Err(failure(ErrorKind::NumberFormat, Field::Width, "4294967296"))
    );
    assert_eq!(
        parse_resolution("1x99999999999999999999999999"),
        Err(failure(ErrorKind::NumberFormat, Field::Height, "99999999999999999999999999"))
    );
    assert_eq!(parse_resolution("x1"), Err(failure(ErrorKind::NumberFormat, Field::Width, "")));
    assert_eq!(parse_resolution("+x1"), Err(failure(ErrorKind::NumberFormat, Field::Width, "+")));
    assert_eq!(parse_resolution("1x2x3"), Err(failure(ErrorKind::NumberFormat, Field::Height, "2x3")));
    assert_eq!(parse_resolution(" 1x2"), Err(failure(ErrorKind::NumberFormat, Field::Width, " 1")));
    assert_eq!(parse_resolution("1X2"), Err(failure(ErrorKind::FieldFormat, Field::Resolution, "1X2")));
}

#[test]
fn whole_numbers_are_read_as_the_standard_library_reads_them() {
    let samples = [
        "", "0", "1", "42", "+42", "-42", "+", "-", "+-1", "--1", "++1", "00", "0000000000001",
        "4294967295", "4294967296", "2147483647", "2147483648", "-2147483648", "-2147483649",
        "99999999999999999999", "1 ", " 1", "1_000", "1e3", "1.0", "0x10", "٣", "１", "-0", "+0",
        "12a", "a12",
    ];
    for sample in samples {
        let width = format!("{}x1", sample);
        assert_eq!(
            parse_resolution(&width).ok().map(|r| r.0),
            sample.parse::<u32>().ok(),
            "width {:?}",
            sample
        );
        let line = format!("Logical position: {}, 0", sample);
        assert_eq!(
            parse_logical_position(&line).ok().map(|p| p.x),
            sample.parse::<i32>().ok(),
            "x {:?}",
            sample
        );
    }
}

#[test]
fn scale_values() {
    assert_eq!(parse_scale("Scale: 1"), Ok("1".to_string()));
    assert_eq!(parse_scale("  Scale: 1.25"), Ok("1.25".to_string()));
    assert_eq!(
        parse_scale("Scale: big"),
        Err(failure(ErrorKind::NumberFormat, Field::Scale, "big"))
    );
    assert_eq!(parse_scale("Scale:1"), Err(failure(ErrorKind::FieldFormat, Field::Scale, "Scale:1")));
}

#[test]
fn number_literals_are_those_that_the_standard_library_reads() {
    let samples = [
        "", "0", "1", "1.", ".1", ".", "1.5", "01.50", "+1.5", "-1.5", "+", "-", "+-1", "1e5",
        "1E5", "1e+5", "1e-5", "1e", "1e+", "e5", ".e5", "1.e5", ".5e5", "1.5e5.0", "1e5e5",
        "inf", "INF", "Inf", "+inf", "-inf", "infinity", "Infinity", "INFINITY", "-infinity",
        "infinit", "infinityy", "nan", "NaN", "NAN", "-nan", "+nan", "nann", "na", "1 ", " 1",
        "1f", "1_0", "0x1", "1,5", "144.001", "60.000", "1e400", "1e-400",
        "123456789012345678901234567890.123456789012345678901234567890", "١", "1.５", "--1",
        "1..2", "1.2.3", "+.5", "-.5e-3", "+e5", "i", "n", "in", "ınf", "1e5 ",
    ];
    for sample in samples {
        let line = format!("Scale: {}", sample);
        assert_eq!(parse_scale(&line).is_ok(), sample.parse::<f32>().is_ok(), "scale {:?}", sample);
    }
}

#[test]
fn header_line() {
    let monitor = parse_monitor_header("Output \"LG Electronics 34GL750 0x01010101\" (DP-2)").unwrap();
    assert_eq!(monitor.name, Some("LG Electronics 34GL750 0x01010101".to_string()));
    assert_eq!(monitor.output_name, "DP-2");
    assert!(monitor.available_modes.is_empty());
    assert_eq!(monitor.current_scale, "1");
    assert_eq!(monitor.current_mode.refresh_rate, "0");
}

#[test]
fn header_with_empty_names() {
    let monitor = parse_monitor_header("Output \"\" ()").unwrap();
    assert_eq!(monitor.name, Some(String::new()));
    assert_eq!(monitor.output_name, "");
}

#[test]
fn header_with_letters_beyond_ascii() {
    let monitor = parse_monitor_header("Output \"Größe 24″ ディスプレイ\" (eDP-1)").unwrap();
    assert_eq!(monitor.name, Some("Größe 24″ ディスプレイ".to_string()));
    assert_eq!(monitor.output_name, "eDP-1");
}

#[test]
fn header_failures() {
    assert_eq!(
        parse_monitor_header("Output DP-2"),
        Err(failure(ErrorKind::Structure, Field::Name, "Output DP-2"))
    );
    assert_eq!(
        parse_monitor_header("Output \"LG (DP-2)"),
        Err(failure(ErrorKind::Structure, Field::Name, "Output \"LG (DP-2)"))
    );
    assert_eq!(
        parse_monitor_header("Output \"LG\" DP-2"),
        Err(failure(ErrorKind::Structure, Field::OutputName, "Output \"LG\" DP-2"))
    );
    assert_eq!(
        parse_monitor_header("Output \"LG\" (DP-2"),
        Err(failure(ErrorKind::Structure, Field::OutputName, "Output \"LG\" (DP-2"))
    );
    assert_eq!(
        parse_monitor_header("Output \"LG\" )DP-2("),
        Err(failure(ErrorKind::Structure, Field::OutputName, "Output \"LG\" )DP-2("))
    );
}
