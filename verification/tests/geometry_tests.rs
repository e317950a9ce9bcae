use breadshot::geometry::{
    active_workspace_ids, clip_geometry, format_geometry, geometry_active_output,
    geometry_active_window, layout_bounds_of, monitor_geometry, parse_geometry, trim_geometry,
    window_selection_input, GeometryError, Monitor, Window,
};

fn monitor(x: i64, y: i64, w: i64, h: i64, transform: i64, ws: Option<i64>) -> Monitor {
    Monitor {
        x: Some(x),
        y: Some(y),
        logical_width: Some(w),
        logical_height: Some(h),
        transform: Some(transform),
        active_workspace: ws,
    }
}

fn window(ws: Option<i64>, x: Option<i64>, y: Option<i64>, w: Option<i64>, h: Option<i64>) -> Window {
    Window { workspace: ws, at_x: x, at_y: y, width: w, height: h }
}

fn two_monitors() -> Option<Vec<Monitor>> {
    Some(vec![monitor(0, 0, 1920, 1080, 0, Some(1)), monitor(1920, 0, 2560, 1440, 0, Some(3))])
}

#[test]
fn trim_keeps_window_inside_layout() {
    assert_eq!(trim_geometry("100,100 500x400", &two_monitors()).unwrap(), "100,100 500x400");
}

#[test]
fn trim_clips_right_and_bottom() {
    assert_eq!(trim_geometry("4000,1000 800x600", &two_monitors()).unwrap(), "4000,1000 480x440");
}

#[test]
fn trim_clips_left_and_top() {
    assert_eq!(trim_geometry("-50,-20 300x200", &two_monitors()).unwrap(), "0,0 250x180");
}

#[test]
fn trim_swaps_size_of_rotated_monitor() {
    let ms = Some(vec![monitor(0, 0, 1920, 1080, 1, None)]);
    assert_eq!(trim_geometry("1000,1800 200x300", &ms).unwrap(), "1000,1800 80x120");
    let ms = Some(vec![monitor(0, 0, 1920, 1080, -3, None)]);
    assert_eq!(trim_geometry("1000,1800 200x300", &ms).unwrap(), "1000,1800 80x120");
    let ms = Some(vec![monitor(0, 0, 1920, 1080, 2, None)]);
    assert_eq!(trim_geometry("1000,1000 200x300", &ms).unwrap(), "1000,1000 200x80");
}

#[test]
fn trim_counts_missing_monitor_numbers_as_zero() {
    let ms = Some(vec![Monitor {
        x: None,
        y: None,
        logical_width: Some(100),
        logical_height: None,
        transform: None,
        active_workspace: None,
    }]);
    assert_eq!(trim_geometry("10,10 200x50", &ms).unwrap(), "10,10 90x-10");
}

#[test]
fn trim_without_monitors_uses_extreme_bounds() {
    assert_eq!(
        trim_geometry("10,20 30x40", &Some(vec![])).unwrap(),
        "9223372036854775807,9223372036854775807 -18446744073709551615x-18446744073709551615"
    );
}

#[test]
fn trim_rejects_monitor_reply_that_is_not_a_list() {
    assert_eq!(trim_geometry("1,2 3x4", &None), Err(GeometryError::MonitorsNotArray));
}

#[test]
fn trim_reports_each_reading_error() {
    let ms = two_monitors();
    assert_eq!(trim_geometry("100,100", &ms), Err(GeometryError::InvalidGeometry));
    assert_eq!(trim_geometry("100 500x400", &ms), Err(GeometryError::InvalidXy));
    assert_eq!(trim_geometry("1,2 500", &ms), Err(GeometryError::InvalidWh));
    assert_eq!(trim_geometry("a,2 3x4", &ms), Err(GeometryError::InvalidX));
    assert_eq!(trim_geometry("1,b 3x4", &ms), Err(GeometryError::InvalidY));
    assert_eq!(trim_geometry("1,2 cx4", &ms), Err(GeometryError::InvalidW));
    assert_eq!(trim_geometry("1,2 3xd", &ms), Err(GeometryError::InvalidH));
    assert_eq!(trim_geometry("1, 2 3x4", &ms), Err(GeometryError::InvalidY));
    assert_eq!(trim_geometry("", &ms), Err(GeometryError::InvalidGeometry));
    // Reading fails before the monitors are consulted.
    assert_eq!(trim_geometry("x", &None), Err(GeometryError::InvalidGeometry));
}

#[test]
fn parse_trims_whitespace_and_reads_signs() {
    assert_eq!(parse_geometry("1,\t2 3x\u{3000}4"), Ok((1, 2, 3, 4)));
    assert_eq!(parse_geometry("+5,-0 3x4 "), Ok((5, 0, 3, 4)));
    assert_eq!(parse_geometry("-9223372036854775808,9223372036854775807 0x0"), Ok((i64::MIN, i64::MAX, 0, 0)));
    assert_eq!(parse_geometry("9223372036854775808,0 1x1"), Err(GeometryError::InvalidX));
    assert_eq!(parse_geometry("-,0 1x1"), Err(GeometryError::InvalidX));
    assert_eq!(parse_geometry("1,2 3x4x5"), Err(GeometryError::InvalidH));
}

#[test]
fn format_and_parse_round_trip() {
    for (x, y, w, h) in [(0i64, 0i64, 1i64, 1i64), (-7, 12, 300, 4000), (i64::MIN, i64::MAX, -1, 10)] {
        let g = format_geometry(x as i128, y as i128, w as i128, h as i128);
        assert_eq!(parse_geometry(&g), Ok((x, y, w, h)));
    }
    assert_eq!(format_geometry(-7, 12, 300, 4000), "-7,12 300x4000");
}

#[test]
fn layout_bounds_of_two_monitors() {
    let ms = two_monitors().unwrap();
    assert_eq!(layout_bounds_of(&ms), (4480, 1440, 0, 0));
    assert_eq!(
        layout_bounds_of(&vec![]),
        (i64::MIN as i128, i64::MIN as i128, i64::MAX as i128, i64::MAX as i128)
    );
}

#[test]
fn clip_geometry_of_numbers() {
    assert_eq!(clip_geometry(4000, 1000, 800, 600, &two_monitors()).unwrap(), "4000,1000 480x440");
    assert_eq!(clip_geometry(1, 1, 1, 1, &None), Err(GeometryError::MonitorsNotArray));
}

#[test]
fn clipping_twice_changes_nothing_more() {
    let ms = two_monitors();
    let once = trim_geometry("-50,1000 5000x900", &ms).unwrap();
    assert_eq!(once, "0,1000 4480x440");
    assert_eq!(trim_geometry(&once, &ms).unwrap(), once);
}

#[test]
fn active_workspaces_in_monitor_order() {
    let ms = Some(vec![
        monitor(0, 0, 1, 1, 0, Some(4)),
        monitor(0, 0, 1, 1, 0, None),
        monitor(0, 0, 1, 1, 0, Some(2)),
    ]);
    assert_eq!(active_workspace_ids(&ms), vec![4, 2]);
    assert_eq!(active_workspace_ids(&None), Vec::<i64>::new());
}

#[test]
fn selection_input_offers_windows_on_active_workspaces() {
    let windows = Some(vec![
        window(Some(1), Some(10), Some(20), Some(300), Some(400)),
        window(Some(2), Some(1), Some(1), Some(1), Some(1)),
        window(Some(3), None, Some(5), Some(6), Some(7)),
        window(None, Some(9), Some(9), Some(9), Some(9)),
    ]);
    assert_eq!(window_selection_input(&vec![1, 3], &windows), "10,20 300x400\n0,5 6x7");
    assert_eq!(window_selection_input(&vec![], &windows), "");
    assert_eq!(window_selection_input(&vec![1], &None), "");
}

#[test]
fn active_window_needs_position_and_size() {
    let w = window(Some(1), Some(10), Some(-20), Some(300), Some(400));
    assert_eq!(geometry_active_window(&w).unwrap(), "10,-20 300x400");
    assert_eq!(geometry_active_window(&window(None, None, None, None, None)), Err(GeometryError::MissingAt0));
    assert_eq!(geometry_active_window(&window(None, Some(1), None, None, None)), Err(GeometryError::MissingAt1));
    assert_eq!(geometry_active_window(&window(None, Some(1), Some(1), None, None)), Err(GeometryError::MissingSize0));
    assert_eq!(geometry_active_window(&window(None, Some(1), Some(1), Some(1), None)), Err(GeometryError::MissingSize1));
}

#[test]
fn monitor_geometry_needs_size() {
    assert_eq!(monitor_geometry(&monitor(1920, 0, 2560, 1440, 1, None)).unwrap(), "1920,0 2560x1440");
    let mut m = monitor(5, 6, 7, 8, 0, None);
    m.x = None;
    assert_eq!(monitor_geometry(&m).unwrap(), "0,6 7x8");
    m.logical_height = None;
    assert_eq!(monitor_geometry(&m), Err(GeometryError::MissingHeight));
    m.logical_width = None;
    assert_eq!(monitor_geometry(&m), Err(GeometryError::MissingWidth));
}

#[test]
fn active_output_is_first_monitor_showing_workspace() {
    let ms = Some(vec![
        monitor(0, 0, 1920, 1080, 0, Some(1)),
        monitor(1920, 0, 2560, 1440, 0, Some(3)),
        monitor(9, 9, 9, 9, 0, Some(3)),
    ]);
    assert_eq!(geometry_active_output(3, &ms).unwrap(), "1920,0 2560x1440");
    assert_eq!(geometry_active_output(7, &ms), Err(GeometryError::NoMonitorForActiveWorkspace));
    assert_eq!(geometry_active_output(1, &None), Err(GeometryError::NoMonitorForActiveWorkspace));
}

#[test]
fn error_messages() {
    assert_eq!(GeometryError::InvalidGeometry.message(), "invalid geometry");
    assert_eq!(GeometryError::InvalidWh.message(), "invalid wh");
    assert_eq!(GeometryError::MissingAt1.message(), "missing at[1]");
    assert_eq!(GeometryError::NoMonitorForActiveWorkspace.message(), "no monitor for active workspace");
    assert_eq!(GeometryError::SelectionCancelled.message(), "selection cancelled");
    assert_eq!(GeometryError::MonitorsNotArray.message(), "monitors not an array");
}
