use x11anywhere::backend::macos::{convert_event, list_system_fonts, standard_cursor_to_macos_type};
use x11anywhere::backend::traits::{BackendEvent, BackendWindow, StandardCursor};
use x11anywhere::backend::windows::{
    color_to_rgb, drain_queue, enumerated_font_info, take_queued, wait_step, face_name_of, get_image_format, message_event,
    poll_step, put_image_bits, window_for_handle, rgb, standard_cursor_to_idc, IDC_ARROW, IDC_HELP, IDC_SIZENWSE,
    IDC_WAIT, WM_KEYDOWN, WM_LBUTTONDOWN, WM_MOUSELEAVE, WM_MOUSEMOVE, WM_PAINT, WM_RBUTTONUP,
    WM_SETCURSOR, WM_SIZE,
};

fn words(low: u16, high: u16) -> isize {
    ((high as isize) << 16) | (low as isize)
}

#[test]
fn macos_cursor_types() {
    assert_eq!(standard_cursor_to_macos_type(StandardCursor::LeftPtr), 0);
    assert_eq!(standard_cursor_to_macos_type(StandardCursor::Xterm), 1);
    assert_eq!(standard_cursor_to_macos_type(StandardCursor::Tcross), 2);
    assert_eq!(standard_cursor_to_macos_type(StandardCursor::Hand2), 3);
    assert_eq!(standard_cursor_to_macos_type(StandardCursor::Fleur), 4);
    assert_eq!(standard_cursor_to_macos_type(StandardCursor::DoubleArrow), 5);
    assert_eq!(standard_cursor_to_macos_type(StandardCursor::SbVDoubleArrow), 6);
    assert_eq!(standard_cursor_to_macos_type(StandardCursor::Clock), 7);
    assert_eq!(standard_cursor_to_macos_type(StandardCursor::Pirate), 8);
    assert_eq!(standard_cursor_to_macos_type(StandardCursor::Gumby), 0);
}

#[test]
fn macos_event_reports() {
    let w = BackendWindow(3);
    match convert_event(w, 4, 10, -5, 100, 100, 0, 2, 0x10, 1234) {
        Some(BackendEvent::ButtonPress { window, button, state, time, x, y }) => {
            assert_eq!((window, button, state, time, x, y), (w, 2, 0x10, 1234, 10, -5));
        }
        other => panic!("{:?}", other),
    }
    // Each number keeps the low bits its field holds
    match convert_event(w, 2, 70000, 0, 0, 0, 300, 0, 0x1_0001, -1) {
        Some(BackendEvent::KeyPress { keycode, state, time, x, .. }) => {
            assert_eq!((keycode, state, time, x), (44, 1, u32::MAX, 4464));
        }
        other => panic!("{:?}", other),
    }
    assert!(matches!(convert_event(w, 9, 0, 0, 0, 0, 0, 0, 0, 0), Some(BackendEvent::FocusOut { .. })));
    assert!(matches!(
        convert_event(w, 11, 7, 8, 0, 0, 0, 0, 0, 5),
        Some(BackendEvent::LeaveNotify { x: 7, y: 8, time: 5, .. })
    ));
    assert!(convert_event(w, 7, 0, 0, 0, 0, 0, 0, 0, 0).is_none());
    assert!(convert_event(w, 12, 0, 0, 0, 0, 0, 0, 0, 0).is_none());
}

#[test]
fn macos_fonts() {
    let fonts = list_system_fonts();
    let names: Vec<&str> = fonts.iter().map(|f| f.xlfd_name.as_str()).collect();
    assert_eq!(
        names,
        vec![
            "-*-helvetica-medium-r-normal--12-120-75-75-p-0-iso8859-1",
            "-*-helvetica-bold-r-normal--12-120-75-75-p-0-iso8859-1",
            "-*-times-medium-r-normal--12-120-75-75-p-0-iso8859-1",
            "-*-courier-medium-r-normal--12-120-75-75-m-70-iso8859-1",
            "-*-monaco-medium-r-normal--12-120-75-75-m-70-iso8859-1",
        ]
    );
    assert_eq!(fonts[1].weight, "bold");
    assert_eq!(fonts[3].family, "Courier");
    assert_eq!(fonts[3].char_width, 70);
    assert!(fonts.iter().all(|f| f.pixel_size == 12 && f.ascent == 9 && f.descent == 3));
}

#[test]
fn windows_colors() {
    assert_eq!(rgb(0x12, 0x34, 0x56), 0x0056_3412);
    assert_eq!(color_to_rgb(0x00AB_CDEF), (0xAB, 0xCD, 0xEF));
    assert_eq!(color_to_rgb(0xFF12_3456), (0x12, 0x34, 0x56));
}

#[test]
fn windows_cursors() {
    assert_eq!(standard_cursor_to_idc(StandardCursor::Watch), IDC_WAIT);
    assert_eq!(standard_cursor_to_idc(StandardCursor::BottomRightCorner), IDC_SIZENWSE);
    assert_eq!(standard_cursor_to_idc(StandardCursor::QuestionArrow), IDC_HELP);
    assert_eq!(standard_cursor_to_idc(StandardCursor::Gumby), IDC_ARROW);
}

#[test]
fn windows_messages_when_waiting() {
    let w = BackendWindow(1);
    match message_event(w, WM_LBUTTONDOWN, 0, words(10, 20), 99) {
        Some(BackendEvent::ButtonPress { button, x, y, time, .. }) => {
            assert_eq!((button, x, y, time), (1, 10, 20, 99));
        }
        other => panic!("{:?}", other),
    }
    match message_event(w, WM_RBUTTONUP, 0, words(0xFFFF, 0xFFFE), 1) {
        Some(BackendEvent::ButtonRelease { button, x, y, .. }) => {
            assert_eq!((button, x, y), (3, -1, -2));
        }
        other => panic!("{:?}", other),
    }
    match message_event(w, WM_SIZE, 0, words(800, 600), 0) {
        Some(BackendEvent::Configure { width, height, .. }) => assert_eq!((width, height), (800, 600)),
        other => panic!("{:?}", other),
    }
    match message_event(w, WM_KEYDOWN, 0x141, 0, 0) {
        Some(BackendEvent::KeyPress { keycode, .. }) => assert_eq!(keycode, 0x41),
        other => panic!("{:?}", other),
    }
    assert!(matches!(message_event(w, WM_PAINT, 0, 0, 0), Some(BackendEvent::Expose { .. })));
    assert!(matches!(message_event(w, WM_MOUSEMOVE, 0, 0, 0), Some(BackendEvent::MotionNotify { .. })));
    assert!(message_event(w, WM_MOUSELEAVE, 0, 0, 0).is_none());
    assert!(message_event(w, WM_SETCURSOR, 0, 1, 0).is_none());
}

#[test]
fn windows_messages_when_polling() {
    let w = BackendWindow(2);
    let step = poll_step(w, false, WM_MOUSEMOVE, 0, words(5, 6), 7);
    assert_eq!(step.events.len(), 2);
    assert!(matches!(step.events[0], BackendEvent::EnterNotify { x: 5, y: 6, time: 7, .. }));
    assert!(matches!(step.events[1], BackendEvent::MotionNotify { x: 5, y: 6, time: 7, .. }));
    assert!(step.mouse_inside && step.track_leave);

    let step = poll_step(w, true, WM_MOUSEMOVE, 0, words(5, 6), 8);
    assert_eq!(step.events.len(), 1);
    assert!(step.mouse_inside && !step.track_leave);

    let step = poll_step(w, true, WM_MOUSELEAVE, 0, 0, 9);
    assert!(matches!(step.events[..], [BackendEvent::LeaveNotify { x: 0, y: 0, time: 9, .. }]));
    assert!(!step.mouse_inside);
    let step = poll_step(w, false, WM_MOUSELEAVE, 0, 0, 9);
    assert!(step.events.is_empty() && !step.mouse_inside);

    let step = poll_step(w, false, WM_SIZE, 0, words(0, 480), 0);
    assert_eq!(step.new_size, Some((0, 480)));
    assert!(!step.resize_backing);
    let step = poll_step(w, false, WM_SIZE, 0, words(640, 480), 0);
    assert!(step.resize_backing);
    assert!(matches!(step.events[..], [BackendEvent::Configure { width: 640, height: 480, .. }]));

    assert!(poll_step(w, false, WM_SETCURSOR, 0, words(1, 0x200), 0).show_cursor);
    assert!(!poll_step(w, false, WM_SETCURSOR, 0, words(2, 0x200), 0).show_cursor);
}

#[test]
fn windows_images() {
    assert_eq!(put_image_bits(2, 1).unwrap(), Some(1));
    assert_eq!(put_image_bits(2, 8).unwrap(), Some(8));
    assert_eq!(put_image_bits(2, 15).unwrap(), Some(16));
    assert_eq!(put_image_bits(2, 24).unwrap(), Some(24));
    assert_eq!(put_image_bits(2, 32).unwrap(), Some(32));
    assert_eq!(put_image_bits(0, 1).unwrap(), None);
    assert_eq!(put_image_bits(1, 24).unwrap(), None);
    assert_eq!(put_image_bits(5, 24).unwrap_err().message, "Unknown image format: 5");
    assert_eq!(get_image_format(2).unwrap(), (24, 0x21));
    assert_eq!(get_image_format(1).unwrap_err().message, "Image format 1 not yet implemented");
    assert_eq!(get_image_format(200).unwrap_err().message, "Unknown image format: 200");
}

#[test]
fn windows_fonts() {
    let face: Vec<u16> = "Arial".encode_utf16().chain([0, 0x58]).collect();
    assert_eq!(face_name_of(&face), "Arial");
    assert_eq!(face_name_of(&[0x48, 0xD800, 0x69]), "H?i");
    assert_eq!(face_name_of(&[]), "");

    let f = enumerated_font_info(4, &face, 700, 1, -16, 0x31, 204, 9, 13, 3).unwrap();
    assert_eq!(f.family, "Arial");
    assert_eq!(f.weight, "bold");
    assert_eq!(f.slant, "i");
    assert_eq!((f.pixel_size, f.point_size, f.char_width), (16, 120, 9));
    assert_eq!((f.ascent, f.descent), (13, 3));
    assert_eq!((f.registry.as_str(), f.encoding.as_str()), ("koi8", "r"));
    assert_eq!(f.xlfd_name, "");

    let f = enumerated_font_info(4, &face, 400, 0, 0, 0x22, 0, 7, 10, 2).unwrap();
    assert_eq!((f.weight.as_str(), f.slant.as_str()), ("medium", "r"));
    assert_eq!((f.pixel_size, f.point_size, f.char_width), (0, 120, 0));
    assert_eq!((f.registry.as_str(), f.encoding.as_str()), ("iso8859", "1"));

    let f = enumerated_font_info(4, &face, 900, 0, 13, 0, 99, 0, 0, 0).unwrap();
    assert_eq!(f.weight, "black");
    assert_eq!(f.point_size, 97);
    assert_eq!((f.registry.as_str(), f.encoding.as_str()), ("iso10646", "1"));

    assert!(enumerated_font_info(1, &face, 400, 0, 12, 0, 0, 0, 0, 0).is_none());
    let vertical: Vec<u16> = "@MS Gothic".encode_utf16().collect();
    assert!(enumerated_font_info(4, &vertical, 400, 0, 12, 0, 128, 0, 0, 0).is_none());
}

#[test]
fn windows_waiting() {
    let w = BackendWindow(4);
    let mut queue = vec![
        BackendEvent::FocusIn { window: w },
        BackendEvent::FocusOut { window: w },
    ];
    assert!(matches!(take_queued(&mut queue), Some(BackendEvent::FocusOut { .. })));
    assert!(matches!(take_queued(&mut queue), Some(BackendEvent::FocusIn { .. })));
    assert!(take_queued(&mut queue).is_none());

    let quit = wait_step(0, Some(w), WM_SIZE, 0, words(640, 480), 0);
    assert_eq!(quit.outcome.unwrap_err().message, "GetMessage failed or received WM_QUIT");
    assert!(quit.new_size.is_none() && !quit.resize_backing && !quit.show_cursor);
    assert!(wait_step(-1, Some(w), WM_PAINT, 0, 0, 0).outcome.is_err());
    assert!(matches!(wait_step(1, Some(w), WM_PAINT, 0, 0, 0).outcome, Ok(Some(BackendEvent::Expose { .. }))));
    assert!(matches!(wait_step(1, None, WM_PAINT, 0, 0, 0).outcome, Ok(None)));
    assert!(matches!(wait_step(1, Some(w), WM_MOUSELEAVE, 0, 0, 0).outcome, Ok(None)));
    let size = wait_step(1, Some(w), WM_SIZE, 0, words(640, 480), 0);
    assert_eq!(size.new_size, Some((640, 480)));
    assert!(size.resize_backing);
    assert!(matches!(size.outcome, Ok(Some(BackendEvent::Configure { width: 640, height: 480, .. }))));
    let size = wait_step(1, None, WM_SIZE, 0, words(640, 480), 0);
    assert!(size.new_size.is_none() && !size.resize_backing);
    let cursor = wait_step(1, Some(w), WM_SETCURSOR, 0, words(1, 0x200), 0);
    assert!(cursor.show_cursor && matches!(cursor.outcome, Ok(None)));
    assert!(!wait_step(1, Some(w), WM_SETCURSOR, 0, words(2, 0x200), 0).show_cursor);

    let mut queue = vec![BackendEvent::FocusIn { window: w }, BackendEvent::FocusOut { window: w }];
    let drained = drain_queue(&mut queue);
    assert!(queue.is_empty());
    assert!(matches!(drained[..], [BackendEvent::FocusIn { .. }, BackendEvent::FocusOut { .. }]));
}

#[test]
fn window_for_handle_finds_first_match() {
    let windows = vec![(1usize, 100isize), (2usize, 200isize), (3usize, 200isize)];
    assert_eq!(window_for_handle(&windows, 200), Some(BackendWindow(2)));
    assert_eq!(window_for_handle(&windows, 100), Some(BackendWindow(1)));
    assert_eq!(window_for_handle(&windows, 300), None);
    assert_eq!(window_for_handle(&[], 100), None);
}
