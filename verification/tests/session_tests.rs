use breadshot::geometry::{GeometryError, Monitor, Window};
use breadshot::session::{
    geometry_for_mode, selection_text, GeometryAction, GeometryEvent, GeometryTask, Mode, Query,
};

fn monitor(x: i64, y: i64, w: i64, h: i64, ws: Option<i64>) -> Monitor {
    Monitor {
        x: Some(x),
        y: Some(y),
        logical_width: Some(w),
        logical_height: Some(h),
        transform: Some(0),
        active_workspace: ws,
    }
}

fn layout() -> Vec<Monitor> {
    vec![monitor(0, 0, 1920, 1080, Some(1)), monitor(1920, 0, 2560, 1440, Some(3))]
}

fn step(task: GeometryTask, event: GeometryEvent) -> (GeometryTask, GeometryAction) {
    assert!(task.accepts(&event));
    task.step(event)
}

fn asks(action: &GeometryAction, query: Query) -> bool {
    matches!(action, GeometryAction::Ask(q) if *q == query)
}

fn done(action: GeometryAction) -> Result<String, GeometryError> {
    match action {
        GeometryAction::Done(r) => r,
        _ => panic!("geometry not settled"),
    }
}

#[test]
fn region_mode_selects_at_once() {
    let (task, action) = geometry_for_mode(Mode::Region);
    match &action {
        GeometryAction::Select { args, input } => {
            assert_eq!(args, &vec![String::from("-d")]);
            assert!(input.is_none());
        }
        _ => panic!("region mode should select"),
    }
    let (_, action) = step(task, GeometryEvent::Selected { success: true, output: b"  12,34 56x78\n".to_vec() });
    assert_eq!(done(action).unwrap(), "12,34 56x78");
}

#[test]
fn output_mode_selects_a_monitor() {
    let (task, action) = geometry_for_mode(Mode::Output);
    match &action {
        GeometryAction::Select { args, input } => {
            assert_eq!(args, &vec![String::from("-or")]);
            assert!(input.is_none());
        }
        _ => panic!("output mode should select"),
    }
    let (_, action) = step(task, GeometryEvent::Selected { success: false, output: b"1,2 3x4".to_vec() });
    assert_eq!(done(action), Err(GeometryError::SelectionCancelled));
}

#[test]
fn selection_is_decoded_and_trimmed() {
    assert_eq!(selection_text(true, b"\t1,2 3x4 \r\n").unwrap(), "1,2 3x4");
    assert_eq!(selection_text(true, b"a\xffb").unwrap(), "a\u{fffd}b");
    assert_eq!(selection_text(false, b""), Err(GeometryError::SelectionCancelled));
}

#[test]
fn window_mode_offers_boxes_and_clips_selection() {
    let (task, action) = geometry_for_mode(Mode::Window);
    assert!(asks(&action, Query::Monitors));
    let (task, action) = step(task, GeometryEvent::Monitors(Some(layout())));
    assert!(asks(&action, Query::Clients));
    let windows = vec![
        Window { workspace: Some(3), at_x: Some(4000), at_y: Some(1000), width: Some(800), height: Some(600) },
        Window { workspace: Some(2), at_x: Some(1), at_y: Some(1), width: Some(1), height: Some(1) },
        Window { workspace: Some(1), at_x: Some(5), at_y: Some(6), width: Some(7), height: Some(8) },
    ];
    let (task, action) = step(task, GeometryEvent::Clients(Some(windows)));
    match &action {
        GeometryAction::Select { args, input } => {
            assert_eq!(args, &vec![String::from("-r")]);
            assert_eq!(input.as_deref(), Some("4000,1000 800x600\n5,6 7x8"));
        }
        _ => panic!("window mode should select"),
    }
    let (task, action) = step(task, GeometryEvent::Selected { success: true, output: b"4000,1000 800x600\n".to_vec() });
    assert!(asks(&action, Query::Monitors));
    let (_, action) = step(task, GeometryEvent::Monitors(Some(layout())));
    assert_eq!(done(action).unwrap(), "4000,1000 480x440");
}

#[test]
fn window_mode_rejects_unreadable_selection() {
    let (task, _) = geometry_for_mode(Mode::Window);
    let (task, _) = step(task, GeometryEvent::Monitors(None));
    let (task, action) = step(task, GeometryEvent::Clients(None));
    match &action {
        GeometryAction::Select { input, .. } => assert_eq!(input.as_deref(), Some("")),
        _ => panic!("window mode should select"),
    }
    let (_, action) = step(task, GeometryEvent::Selected { success: true, output: b"nonsense".to_vec() });
    assert_eq!(done(action), Err(GeometryError::InvalidGeometry));
}

#[test]
fn active_window_mode_clips_focused_window() {
    let (task, action) = geometry_for_mode(Mode::ActiveWindow);
    assert!(asks(&action, Query::ActiveWindow));
    let w = Window { workspace: Some(1), at_x: Some(-50), at_y: Some(-20), width: Some(300), height: Some(200) };
    let (task, action) = step(task, GeometryEvent::ActiveWindow(w));
    assert!(asks(&action, Query::Monitors));
    let (_, action) = step(task, GeometryEvent::Monitors(Some(layout())));
    assert_eq!(done(action).unwrap(), "0,0 250x180");
}

#[test]
fn active_window_mode_needs_position_and_size() {
    let (task, _) = geometry_for_mode(Mode::ActiveWindow);
    let w = Window { workspace: None, at_x: Some(1), at_y: Some(2), width: None, height: Some(4) };
    let (_, action) = step(task, GeometryEvent::ActiveWindow(w));
    assert_eq!(done(action), Err(GeometryError::MissingSize0));
}

#[test]
fn active_output_mode_finds_monitor_of_active_workspace() {
    let (task, action) = geometry_for_mode(Mode::ActiveOutput);
    assert!(asks(&action, Query::ActiveWorkspace));
    let (task, action) = step(task, GeometryEvent::ActiveWorkspace(Some(3)));
    assert!(asks(&action, Query::Monitors));
    let (_, action) = step(task, GeometryEvent::Monitors(Some(layout())));
    assert_eq!(done(action).unwrap(), "1920,0 2560x1440");
}

#[test]
fn active_output_mode_needs_workspace_id() {
    let (task, _) = geometry_for_mode(Mode::ActiveOutput);
    let (_, action) = step(task, GeometryEvent::ActiveWorkspace(None));
    assert_eq!(done(action), Err(GeometryError::NoActiveWorkspaceId));
}

#[test]
fn tasks_accept_only_their_reply() {
    let (task, _) = geometry_for_mode(Mode::Window);
    assert!(!task.accepts(&GeometryEvent::Clients(None)));
    assert!(!task.accepts(&GeometryEvent::ActiveWorkspace(Some(1))));
    assert!(task.accepts(&GeometryEvent::Monitors(None)));
}

#[test]
fn query_subcommands() {
    assert_eq!(Query::Monitors.subcommand(), "monitors");
    assert_eq!(Query::Clients.subcommand(), "clients");
    assert_eq!(Query::ActiveWindow.subcommand(), "activewindow");
    assert_eq!(Query::ActiveWorkspace.subcommand(), "activeworkspace");
}
