use breadshot::capture::{
    capture_filename, check_deps, dated_filename_for, plan_capture, required_tool_names,
    CaptureError, CapturePlan, Overrides, Timestamp,
};

// 2024-01-02 03:04:05 UTC.
const MOMENT: Timestamp = Timestamp { seconds: 1704164645, nanos: 0, utc_offset: 0 };
use breadshot::config::Config;

fn config() -> Config {
    Config {
        save_dir: String::from("/home/ana/Pictures/Screenshots"),
        silent: false,
        freeze: true,
        notif_timeout: 5000,
        date_format: String::from("%Y-%m-%d-%H%M%S"),
    }
}

fn overrides() -> Overrides {
    Overrides { clipboard_only: false, silent: false, freeze: false, output_dir: None, filename: None }
}

#[test]
fn required_tools_are_listed_in_order() {
    assert_eq!(required_tool_names(), vec!["grim", "slurp", "wl-copy", "hyprctl"]);
}

#[test]
fn check_deps_passes_when_all_found() {
    let tools = required_tool_names();
    assert!(check_deps(&tools, &vec![true, true, true, true]).is_ok());
}

#[test]
fn check_deps_lists_missing_tools() {
    let tools = required_tool_names();
    match check_deps(&tools, &vec![true, false, true, false]) {
        Err(e) => {
            assert!(matches!(&e, CaptureError::MissingTools(m) if m == &vec!["slurp", "hyprctl"]));
            assert_eq!(e.message(), "missing required tools: slurp, hyprctl");
        }
        Ok(()) => panic!("missing tools not reported"),
    }
}

#[test]
fn requested_filename_is_kept() {
    match capture_filename(Some(String::from("capture.png")), "foo%?", MOMENT) {
        Ok(n) => assert_eq!(n, "capture.png"),
        Err(_) => panic!("requested name refused"),
    }
}

#[test]
fn dated_filename_pattern() {
    assert_eq!(dated_filename_for("2024-01-02-030405"), "2024-01-02-030405_breadshot.png");
    match capture_filename(None, "%Y-%m-%d-%H%M%S", MOMENT) {
        Ok(n) => assert_eq!(n, "2024-01-02-030405_breadshot.png"),
        Err(_) => panic!("valid format refused"),
    }
    let east = Timestamp { seconds: 1704164645, nanos: 0, utc_offset: 3600 };
    match capture_filename(None, "%H%M %z", east) {
        Ok(n) => assert_eq!(n, "0404 +0100_breadshot.png"),
        Err(_) => panic!("valid format refused"),
    }
}

#[test]
fn invalid_date_format_is_an_error() {
    match capture_filename(None, "foo%?", MOMENT) {
        Err(e) => {
            assert!(matches!(e, CaptureError::InvalidDateFormat));
            assert_eq!(e.message(), "invalid date format");
        }
        Ok(n) => panic!("invalid format accepted: {n}"),
    }
}

#[test]
fn plan_uses_configured_directory() {
    let p = CapturePlan::new(&config(), overrides(), "shot.png");
    assert_eq!(p.save_dir, "/home/ana/Pictures/Screenshots");
    assert_eq!(p.save_path, "/home/ana/Pictures/Screenshots/shot.png");
    assert!(!p.silent);
    assert!(p.freeze);
    assert!(!p.clipboard_only);
}

#[test]
fn plan_overrides_win() {
    let o = Overrides {
        clipboard_only: true,
        silent: true,
        freeze: false,
        output_dir: Some(String::from("/tmp/out/")),
        filename: Some(String::from("x.png")),
    };
    match plan_capture(&config(), o, MOMENT) {
        Ok(p) => {
            assert_eq!(p.save_dir, "/tmp/out/");
            assert_eq!(p.save_path, "/tmp/out/x.png");
            assert!(p.silent && p.freeze && p.clipboard_only);
        }
        Err(_) => panic!("plan refused"),
    }
}

#[test]
fn plan_with_absolute_filename() {
    let p = CapturePlan::new(&config(), overrides(), "/srv/a.png");
    assert_eq!(p.save_path, "/srv/a.png");
}

#[test]
fn plan_names_dated_file() {
    match plan_capture(&config(), overrides(), MOMENT) {
        Ok(p) => assert_eq!(p.save_path, "/home/ana/Pictures/Screenshots/2024-01-02-030405_breadshot.png"),
        Err(_) => panic!("plan refused"),
    }
}

#[test]
fn notification_messages_and_arguments() {
    let saved = CapturePlan::new(&config(), overrides(), "shot.png");
    assert_eq!(saved.message(), "Saved to <i>/home/ana/Pictures/Screenshots/shot.png</i>");
    assert_eq!(
        saved.notification_args(5000, true),
        vec![
            "Screenshot",
            "Saved to <i>/home/ana/Pictures/Screenshots/shot.png</i>",
            "-t",
            "5000",
            "-a",
            "breadshot",
            "-i",
            "/home/ana/Pictures/Screenshots/shot.png",
        ]
    );
    let mut o = overrides();
    o.clipboard_only = true;
    let copied = CapturePlan::new(&config(), o, "shot.png");
    assert_eq!(copied.message(), "Copied to clipboard");
    assert_eq!(
        copied.notification_args(0, false),
        vec!["Screenshot", "Copied to clipboard", "-t", "0", "-a", "breadshot"]
    );
    assert_eq!(copied.notification_args(u32::MAX, false)[3], "4294967295");
}

#[test]
fn moment_out_of_range_cannot_be_dated() {
    let far = Timestamp { seconds: i64::MAX, nanos: 0, utc_offset: 0 };
    assert!(matches!(capture_filename(None, "%Y", far), Err(CaptureError::InvalidDateFormat)));
    let bad_offset = Timestamp { seconds: 0, nanos: 0, utc_offset: 90000 };
    assert!(matches!(capture_filename(None, "%Y", bad_offset), Err(CaptureError::InvalidDateFormat)));
}
