use glint_screenshot::capture::{
    check_texture_size, poll_worker, shell_reply, wants_screencast, CaptureStep, FlowStep,
    ShellCaptureError, WorkerMail, WorkerWait,
};
use glint_screenshot::cli::{
    handle_capture_result, parse_mode, startup, FlowResult, FollowUp, Invocation, Mode, Startup,
};
use glint_screenshot::demo::{demo_size, demo_surface, demo_title};
use glint_screenshot::desktop::MonitorGeom;
use glint_screenshot::image::Argb32Image;
use glint_screenshot::paths::{
    chosen_path, default_save_folder, dirs_cache, join, socket_path, token_path,
};
use glint_screenshot::pin_window::{closes, PinDrag, ZOOM_MAX, ZOOM_MIN, ZOOM_ONE};
use glint_screenshot::selector::KEY_ESCAPE;
use glint_screenshot::text::{
    color_label, decimal_text, initial_save_name, is_switched_on, length_label, restore_token,
    shell_capture_path,
};
use glint_screenshot::units::{Point, UNIT};
use glint_screenshot::{wrap_surface, Color, PaintOp, PinWindow, ScreenshotService};

fn args(list: &[&str]) -> Vec<String> {
    list.iter().map(|s| s.to_string()).collect()
}

#[test]
fn modes_of_the_command_line() {
    assert_eq!(parse_mode(&args(&[])), Invocation::Run(Mode::Capture));
    assert_eq!(parse_mode(&args(&["--daemon"])), Invocation::Run(Mode::Daemon));
    assert_eq!(parse_mode(&args(&["--trigger"])), Invocation::Run(Mode::Trigger));
    assert_eq!(parse_mode(&args(&["--trigger", "--capture"])), Invocation::Run(Mode::Capture));
    assert_eq!(
        parse_mode(&args(&["--daemon", "--trigger", "--unknown"])),
        Invocation::Run(Mode::Trigger)
    );
    assert_eq!(parse_mode(&args(&["--daemon", "-h", "--trigger"])), Invocation::Help);
    assert_eq!(parse_mode(&args(&["--help"])), Invocation::Help);
}

#[test]
fn starting_up() {
    assert_eq!(startup(Mode::Trigger, true), Startup::Exit);
    assert_eq!(startup(Mode::Trigger, false), Startup::SingleShot);
    assert_eq!(startup(Mode::Capture, false), Startup::SingleShot);
    assert_eq!(startup(Mode::Daemon, false), Startup::Daemon);
}

#[test]
fn after_a_capture() {
    assert_eq!(
        handle_capture_result(FlowResult::Image, true),
        FollowUp { pin: true, report_error: false, quit: false }
    );
    assert_eq!(
        handle_capture_result(FlowResult::Nothing, true),
        FollowUp { pin: false, report_error: false, quit: true }
    );
    assert_eq!(
        handle_capture_result(FlowResult::Failed, false),
        FollowUp { pin: false, report_error: true, quit: false }
    );
}

/// The last step of a capture whose steps go as told.
fn run(oks: &[bool]) -> Vec<CaptureStep> {
    let service = ScreenshotService::default();
    let mut step = service.capture_full_screen(None);
    let mut steps = vec![step];
    for ok in oks {
        step = service.next_step(step, *ok);
        steps.push(step);
    }
    steps
}

#[test]
fn capture_steps() {
    assert_eq!(run(&[true]), vec![CaptureStep::Portal, CaptureStep::Done]);
    assert_eq!(
        run(&[false, false, true]),
        vec![
            CaptureStep::Portal,
            CaptureStep::GrantPermission,
            CaptureStep::PortalRetry,
            CaptureStep::Done,
        ]
    );
    assert_eq!(run(&[false, true, false])[3], CaptureStep::GnomeDbus);
    assert_eq!(run(&[false, true, false, true])[4], CaptureStep::Done);
    assert_eq!(run(&[false, true, false, false])[4], CaptureStep::Failed);
}

#[test]
fn demo_mode() {
    let service = ScreenshotService::new();
    let on = "1".to_string();
    let off = "true".to_string();
    assert_eq!(service.capture_full_screen(Some(&on)), CaptureStep::Demo);
    assert_eq!(service.capture_full_screen(Some(&off)), CaptureStep::Portal);
    assert_eq!(service.next_step(CaptureStep::Demo, true), CaptureStep::Done);
}

#[test]
fn flow_steps() {
    assert_eq!(FlowStep::first(false), FlowStep::PortalBare);
    assert_eq!(FlowStep::first(true), FlowStep::Screencast);
    assert_eq!(FlowStep::Screencast.next(true), FlowStep::Stitch);
    assert_eq!(FlowStep::Screencast.next(false), FlowStep::PortalBare);
    assert_eq!(FlowStep::Stitch.next(true), FlowStep::Select);
    assert_eq!(FlowStep::Stitch.next(false), FlowStep::PortalBare);
    assert_eq!(FlowStep::PortalBare.next(false), FlowStep::PortalWithParent);
    assert_eq!(FlowStep::PortalWithParent.next(true), FlowStep::Select);
    assert_eq!(FlowStep::PortalWithParent.next(false), FlowStep::Fail);
}

#[test]
fn switches() {
    for on in ["1", "true", "TRUE", "tRuE"] {
        assert!(is_switched_on(&on.to_string()));
        assert!(wants_screencast(Some(&on.to_string())));
    }
    for off in ["", "0", "yes", "true ", "11", "tru"] {
        assert!(!is_switched_on(&off.to_string()));
    }
    assert!(!wants_screencast(None));
}

#[test]
fn replies_of_the_shell() {
    assert_eq!(shell_reply(true, "/tmp/a.png".to_string()), Ok("/tmp/a.png".to_string()));
    assert_eq!(shell_reply(false, "/tmp/a.png".to_string()), Err(ShellCaptureError::Refused));
    assert_eq!(check_texture_size(1, 1), Ok(()));
    assert_eq!(check_texture_size(1, 0), Err(ShellCaptureError::InvalidSize));
    assert_eq!(check_texture_size(-1, 5), Err(ShellCaptureError::InvalidSize));
}

#[test]
fn waiting_for_the_recording_thread() {
    assert_eq!(poll_worker(WorkerMail::Result, 40000), WorkerWait::Take);
    assert_eq!(poll_worker(WorkerMail::Disconnected, 0), WorkerWait::Died);
    assert_eq!(poll_worker(WorkerMail::Empty, 29999), WorkerWait::WaitMillis(20));
    assert_eq!(poll_worker(WorkerMail::Empty, 30000), WorkerWait::TimedOut);
}

#[test]
fn shared_images() {
    let shared = wrap_surface(Argb32Image::from_bytes(1, 1, vec![1, 2, 3, 4]));
    assert_eq!(shared.data(), &[1, 2, 3, 4][..]);
    assert_eq!(shared.stride(), 4);
}

#[test]
fn paths_are_joined() {
    assert_eq!(join(b"/a", b"b"), b"/a/b".to_vec());
    assert_eq!(join(b"/a/", b"b"), b"/a/b".to_vec());
    assert_eq!(join(b"", b"b"), b"b".to_vec());
}

#[test]
fn cache_and_token() {
    assert_eq!(dirs_cache(Some(b"/c"), Some(b"/home/u")), b"/c".to_vec());
    assert_eq!(dirs_cache(None, Some(b"/home/u")), b"/home/u/.cache".to_vec());
    assert_eq!(dirs_cache(None, None), b"./.cache".to_vec());
    assert_eq!(token_path(Some(b"/c"), None), b"/c/glint-screencast-token".to_vec());
}

#[test]
fn sockets() {
    assert_eq!(
        socket_path(Some(b"/run/user/1000"), None, b"/tmp"),
        b"/run/user/1000/glint-screenshot.sock".to_vec()
    );
    assert_eq!(
        socket_path(None, Some(b"ann"), b"/tmp"),
        b"/tmp/glint-screenshot-ann.sock".to_vec()
    );
    assert_eq!(socket_path(None, None, b"/tmp"), b"/tmp/glint-screenshot-anon.sock".to_vec());
}

#[test]
fn save_folders() {
    assert_eq!(default_save_folder(Some(b"/p"), true, b"/h"), Some(b"/p".to_vec()));
    assert_eq!(default_save_folder(Some(b"/p"), false, b"/h"), Some(b"/h".to_vec()));
    assert_eq!(default_save_folder(None, true, b"/h"), Some(b"/h".to_vec()));
    assert_eq!(default_save_folder(None, false, b""), None);
}

#[test]
fn chosen_paths_get_an_extension() {
    let done = |p: &str| chosen_path(p.as_bytes()).map(|v| String::from_utf8(v).unwrap());
    assert_eq!(done(""), None);
    // The answers of std's path functions are the measure.
    for p in [
        "/a/shot", "/a/shot.png", "/a/shot.jpg", "/a/shot.", "/a.b/shot", "/a/.shot", "/a/..",
        "/a/.", "/", ".", "..", "shot", "/a/shot/", "/a/.hid.den", "/a/shot/.", "a//", "...",
    ] {
        let mut expected = std::path::PathBuf::from(p);
        if expected.extension().is_none() {
            expected.set_extension("png");
        }
        let mine = done(p);
        assert_eq!(mine.as_deref(), expected.to_str(), "{}", p);
        // Once is enough.
        let again = mine.as_deref().and_then(|m| done(m));
        assert_eq!(again, mine);
    }
}

#[test]
fn texts() {
    assert_eq!(decimal_text(0), "0");
    assert_eq!(decimal_text(90210), "90210");
    assert_eq!(decimal_text(u64::MAX), "18446744073709551615");
    assert_eq!(length_label(640 * UNIT + 512), "640");
    assert_eq!(length_label(641 * UNIT + 512), "642");
    assert_eq!(color_label(1, 23, 255), "RGB(1, 23, 255)");
    assert_eq!(
        initial_save_name(Some("2024-01-02_03-04-05")),
        "Screenshot_2024-01-02_03-04-05.png"
    );
    assert_eq!(initial_save_name(None), "Screenshot_screenshot.png");
    assert_eq!(shell_capture_path(1700), "/tmp/glint-screenshot-1700.png");
}

#[test]
fn restore_tokens_are_trimmed() {
    assert_eq!(restore_token(None), None);
    assert_eq!(restore_token(Some("")), None);
    assert_eq!(restore_token(Some(" \n\t ")), None);
    assert_eq!(restore_token(Some(" \u{3000}ab c\n")), Some("ab c".to_string()));
}

#[test]
fn wheel_zoom() {
    let mut w = PinWindow::new();
    assert_eq!(w.zoom(), ZOOM_ONE);
    w.scroll(-1000);
    assert_eq!(w.zoom(), 1_100_000);
    w.scroll(1000);
    assert_eq!(w.zoom(), 990_000);
    w.scroll(0);
    assert_eq!(w.zoom(), 990_000);
    for _ in 0..40 {
        w.scroll(1000);
    }
    assert_eq!(w.zoom(), ZOOM_MIN);
    for _ in 0..60 {
        w.scroll(-1000);
    }
    assert_eq!(w.zoom(), ZOOM_MAX);
    w.scroll(20000);
    assert_eq!(w.zoom(), ZOOM_MIN);
    w.scroll(i64::MIN);
    assert_eq!(w.zoom(), ZOOM_MAX);
    w.scroll(i64::MAX);
    assert_eq!(w.zoom(), ZOOM_MIN);
}

#[test]
fn pinned_windows_are_dragged_by_their_margins() {
    let mut w = PinWindow::new();
    w.drag_begin(100, 50);
    assert_eq!(w.drag_update(Point { x: 5 * UNIT, y: 7 * UNIT }), (105, 57));
    // Fractions of a pixel are dropped, whichever the direction.
    assert_eq!(w.drag_update(Point { x: 25 * UNIT + 512, y: -5 * UNIT - 512 }), (125, 45));
    assert_eq!(w.drag_update(Point { x: 0, y: 0 }), (100, 50));
}

#[test]
fn pinned_windows_need_layers_for_margins() {
    let w = PinWindow::new();
    assert_eq!(w.show(true, true), PinDrag::Margins);
    assert_eq!(w.show(true, false), PinDrag::Compositor);
    assert_eq!(w.show(false, false), PinDrag::Compositor);
}

#[test]
fn escape_closes_pinned_windows() {
    assert!(closes(KEY_ESCAPE, 0));
    assert!(!closes(KEY_ESCAPE, 4));
    assert!(!closes(0x63, 0));
}

#[test]
fn the_test_image() {
    assert_eq!(demo_size(None), (1920, 1080));
    assert_eq!(demo_size(Some(MonitorGeom { x: 5, y: 6, w: 160, h: 80 })), (160, 80));
    let title = demo_title();
    let ops = demo_surface(160, 80, &title);
    // Eight for the rainbow, three columns and two lines, a stroke, the swatches
    // and the title.
    assert_eq!(ops.len(), 8 + 6 + 4 + 1 + 24 + 4);
    assert_eq!(ops[5], PaintOp::Gradient(Point { x: 160 * UNIT, y: 80 * UNIT }));
    assert_eq!(ops[12], PaintOp::MoveTo(Point { x: 160 * UNIT, y: 0 }));
    assert_eq!(ops[17], PaintOp::LineTo(Point { x: 160 * UNIT, y: 80 * UNIT }));
    assert_eq!(ops[18], PaintOp::Stroke);
    assert_eq!(ops[34], PaintOp::Source(Color(1000, 0, 1000, 1000)));
    assert_eq!(
        ops[35],
        PaintOp::Rectangle { x: 180 * UNIT, y: 180 * UNIT, w: 120 * UNIT, h: 120 * UNIT }
    );
    assert_eq!(ops[45], PaintOp::MoveTo(Point { x: 40 * UNIT, y: 20 * UNIT }));
    assert_eq!(ops[46], PaintOp::ShowText(&title));
}
