use x11anywhere::backend::{available_backends, EnabledBackends};
use x11anywhere::cli::Platform;
use x11anywhere::backend::null::NullBackend;
use x11anywhere::backend::traits::{
    interpolate_x, trapezoid_gc, trapezoid_polygon, Backend, BackendCursor, BackendDrawable, BackendGC,
    BackendWindow, RenderTrapezoid, StandardCursor, WindowParams,
};
use x11anywhere::protocol::types::{GCFunction, Point, Rectangle, WindowClass};

fn params() -> WindowParams {
    WindowParams {
        parent: None,
        x: 0,
        y: 0,
        width: 10,
        height: 10,
        border_width: 0,
        class: WindowClass::InputOutput,
        background_pixel: None,
        event_mask: 0,
    }
}

#[test]
fn backends_by_platform_and_features() {
    let all = EnabledBackends { x11: true, wayland: true, macos: true, windows: true };
    let none = EnabledBackends { x11: false, wayland: false, macos: false, windows: false };
    assert_eq!(available_backends(Platform::Linux, all), vec!["x11", "wayland"]);
    assert_eq!(available_backends(Platform::Unix, all), vec!["x11"]);
    assert_eq!(available_backends(Platform::MacOS, all), vec!["x11", "macos"]);
    assert_eq!(available_backends(Platform::Windows, all), vec!["windows"]);
    assert!(available_backends(Platform::Other, all).is_empty());
    assert!(available_backends(Platform::Linux, none).is_empty());
    let x11_only = EnabledBackends { x11: true, ..none };
    assert_eq!(available_backends(Platform::Linux, x11_only), vec!["x11"]);

    let linux = EnabledBackends::defaults_for(Platform::Linux);
    assert_eq!(linux, EnabledBackends { x11: true, wayland: true, macos: false, windows: false });
    assert_eq!(available_backends(Platform::Linux, linux), vec!["x11", "wayland"]);
    assert_eq!(available_backends(Platform::Unix, EnabledBackends::defaults_for(Platform::Unix)), vec!["x11"]);
    assert_eq!(available_backends(Platform::MacOS, EnabledBackends::defaults_for(Platform::MacOS)), vec!["macos"]);
    assert_eq!(
        available_backends(Platform::Windows, EnabledBackends::defaults_for(Platform::Windows)),
        vec!["windows"]
    );
    assert!(available_backends(Platform::Other, EnabledBackends::defaults_for(Platform::Other)).is_empty());
}

#[test]
fn interpolation() {
    // Horizontal line: the first point's X
    assert_eq!(interpolate_x(5, 3, 100, 3, 50), 5);
    // Midway along a line from (0, 0) to (10, 20)
    assert_eq!(interpolate_x(0, 0, 10, 20, 10), 5);
    // Division rounds toward zero, also for negative steps
    assert_eq!(interpolate_x(0, 0, -10, 3, 1), -3);
    assert_eq!(interpolate_x(0, 0, 10, 3, 1), 3);
    // Both end points lie on the line
    assert_eq!(interpolate_x(7, -4, -9, 12, -4), 7);
    assert_eq!(interpolate_x(7, -4, -9, 12, 12), -9);
    // 16.16 fixed-point values
    assert_eq!(interpolate_x(0, 0, 10 << 16, 10 << 16, 5 << 16), 5 << 16);
}

#[test]
fn trapezoid_to_polygon() {
    let t = RenderTrapezoid {
        top: 2 << 16,
        bottom: 10 << 16,
        left_x1: 0,
        left_y1: 0,
        left_x2: 0,
        left_y2: 20 << 16,
        right_x1: 20 << 16,
        right_y1: 0,
        right_x2: 40 << 16,
        right_y2: 20 << 16,
    };
    let p = trapezoid_polygon(&t);
    assert_eq!(
        p,
        vec![
            Point { x: 0, y: 2 },
            Point { x: 22, y: 2 },
            Point { x: 30, y: 10 },
            Point { x: 0, y: 10 },
        ]
    );
}

#[test]
fn negative_fixed_point_rounds_down() {
    let t = RenderTrapezoid {
        top: -(1 << 15),
        bottom: 1 << 16,
        left_x1: -(3 << 15),
        left_y1: 0,
        left_x2: -(3 << 15),
        left_y2: 1 << 16,
        right_x1: 1 << 16,
        right_y1: 0,
        right_x2: 1 << 16,
        right_y2: 1 << 16,
    };
    let p = trapezoid_polygon(&t);
    assert_eq!(p[0], Point { x: -2, y: -1 });
    assert_eq!(p[2], Point { x: 1, y: 1 });
}

#[test]
fn cursor_glyphs() {
    assert_eq!(StandardCursor::from_glyph(0), Some(StandardCursor::XCursor));
    assert_eq!(StandardCursor::from_glyph(2), Some(StandardCursor::Arrow));
    assert_eq!(StandardCursor::from_glyph(34), Some(StandardCursor::Crosshair));
    assert_eq!(StandardCursor::from_glyph(52), Some(StandardCursor::Fleur));
    assert_eq!(StandardCursor::from_glyph(58), Some(StandardCursor::Hand1));
    assert_eq!(StandardCursor::from_glyph(60), Some(StandardCursor::Hand2));
    assert_eq!(StandardCursor::from_glyph(68), Some(StandardCursor::LeftPtr));
    assert_eq!(StandardCursor::from_glyph(150), Some(StandardCursor::Watch));
    assert_eq!(StandardCursor::from_glyph(152), Some(StandardCursor::Xterm));
    assert_eq!(StandardCursor::from_glyph(4), None);
    assert_eq!(StandardCursor::from_glyph(1), None);
    assert_eq!(BackendCursor::none(), BackendCursor(0));
}

#[test]
fn default_gc() {
    let gc = BackendGC::default();
    assert_eq!(gc.function, GCFunction::Copy);
    assert_eq!(gc.foreground, 0);
    assert_eq!(gc.background, 0xffffff);
    assert_eq!(gc.line_width, 0);
}

#[test]
fn null_backend_hands_out_handles_in_order() {
    let mut b = NullBackend::new();
    assert!(b.init().is_ok());
    assert_eq!(b.create_window(params()).unwrap(), BackendWindow(1));
    assert_eq!(b.create_window(params()).unwrap(), BackendWindow(2));
    assert_eq!(b.create_pixmap(8, 8, 24).unwrap(), 1);
    assert_eq!(b.create_pixmap(8, 8, 24).unwrap(), 2);
    assert_eq!(b.create_window(params()).unwrap(), BackendWindow(3));
}

#[test]
fn null_backend_screen_and_visuals() {
    let b = NullBackend::new();
    let s = b.get_screen_info().unwrap();
    assert_eq!((s.width, s.height, s.root_depth), (1920, 1080, 24));
    assert_eq!(s.root_visual.get(), 0x21);
    let v = b.get_visuals().unwrap();
    assert_eq!(v.len(), 1);
    assert_eq!(v[0].class, 4);
    assert_eq!(v[0].red_mask, 0xff0000);
}

#[test]
fn null_backend_accepts_drawing() {
    let mut b = NullBackend::new();
    let w = BackendDrawable::Window(BackendWindow(1));
    let gc = BackendGC::default();
    let rects = [Rectangle { x: 0, y: 0, width: 1, height: 1 }];
    assert!(b.draw_rectangles(w, &gc, &rects).is_ok());
    assert!(b.fill_rectangles(w, &gc, &rects).is_ok());
    assert!(b.draw_lines(w, &gc, &[Point { x: 0, y: 0 }, Point { x: 1, y: 1 }, Point { x: 2, y: 0 }]).is_ok());
    assert!(b.draw_lines(w, &gc, &[]).is_ok());
    assert!(b.draw_segments(w, &gc, &[(0, 0, 1, 1)]).is_ok());
    let t = RenderTrapezoid {
        top: 0,
        bottom: 1 << 16,
        left_x1: 0,
        left_y1: 0,
        left_x2: 0,
        left_y2: 1 << 16,
        right_x1: 1 << 16,
        right_y1: 0,
        right_x2: 1 << 16,
        right_y2: 1 << 16,
    };
    assert!(b.fill_trapezoids(w, 0xff00ff00, &[t]).is_ok());
    assert!(b.draw_text(w, &gc, 0, 0, "hello").is_ok());
    assert!(b.flush().is_ok());
}

#[test]
fn null_backend_cursors_and_events() {
    let mut b = NullBackend::new();
    assert_eq!(b.create_standard_cursor(StandardCursor::Watch).unwrap(), BackendCursor(0));
    assert!(b.free_cursor(BackendCursor(0)).is_ok());
    assert!(b.set_window_cursor(BackendWindow(1), BackendCursor(0)).is_ok());
    assert!(b.poll_events().unwrap().is_empty());
    assert_eq!(b.wait_for_event().unwrap_err().message, "No events available");
}

#[test]
fn null_backend_blank_image() {
    let mut b = NullBackend::new();
    let img = b.get_image(BackendDrawable::Pixmap(1), 0, 0, 3, 2, 0xffff_ffff, 2).unwrap();
    assert_eq!(img.len(), 24);
    assert!(img.iter().all(|x| *x == 0));
}

#[test]
fn null_backend_fonts() {
    let mut b = NullBackend::new();
    let fonts = b.list_system_fonts().unwrap();
    assert_eq!(fonts.len(), 3);
    assert_eq!(fonts[0].xlfd_name, "-misc-fixed-medium-r-normal--13-120-75-75-c-80-iso8859-1");
    assert_eq!(fonts[1].weight, "bold");
    assert_eq!(fonts[2].family, "helvetica");
    assert_eq!(fonts[2].char_width, 0);
}

#[test]
fn trapezoid_gc_is_default_with_color() {
    let gc = trapezoid_gc(0x00ff8800);
    let mut expected = BackendGC::default();
    expected.foreground = 0x00ff8800;
    assert_eq!(gc, expected);
    assert_eq!(gc.function, GCFunction::Copy);
    assert_eq!(gc.background, 0xffffff);
}
