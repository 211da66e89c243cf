//! The decisions of the macOS backend that make no call into the window system: the
//! cursor type for each standard cursor, the backend event that each event report
//! becomes, and the fonts the backend offers.
//!
//! The backend itself draws through a Swift bridge to Cocoa, which is not part of
//! this library.
use vstd::prelude::*;
use super::null::{font_view, BackendFontInfo, FontView};
use super::traits::{BackendEvent, BackendWindow, StandardCursor};

verus! {

/// The cursor type that the bridge shows for a standard cursor: 0 the arrow, 1 the
/// I-beam, 2 the crosshair, 3 the pointing hand, 4 the closed hand, 5 left-right
/// resizing, 6 up-down resizing, 7 and 8 "operation not allowed".
pub open spec fn cursor_type(cursor: StandardCursor) -> i32 {
    match cursor {
        StandardCursor::LeftPtr | StandardCursor::Arrow | StandardCursor::TopLeftArrow => 0,
        StandardCursor::Xterm => 1,
        StandardCursor::Crosshair | StandardCursor::Cross | StandardCursor::Tcross => 2,
        StandardCursor::Hand1 | StandardCursor::Hand2 => 3,
        StandardCursor::Fleur => 4,
        StandardCursor::SbHDoubleArrow | StandardCursor::DoubleArrow => 5,
        StandardCursor::SbVDoubleArrow => 6,
        StandardCursor::Watch | StandardCursor::Clock => 7,
        StandardCursor::XCursor | StandardCursor::Pirate => 8,
        _ => 0,
    }
}

/// Map a standard cursor to the bridge's cursor type (see `cursor_type`).
pub fn standard_cursor_to_macos_type(cursor: StandardCursor) -> (r: i32)
    ensures
        r == cursor_type(cursor),
{
    match cursor {
        StandardCursor::LeftPtr | StandardCursor::Arrow | StandardCursor::TopLeftArrow => 0,  // arrow
        StandardCursor::Xterm => 1,  // IBeam
        StandardCursor::Crosshair | StandardCursor::Cross | StandardCursor::Tcross => 2,  // crosshair
        StandardCursor::Hand1 | StandardCursor::Hand2 => 3,  // pointingHand
        StandardCursor::Fleur => 4,  // closedHand (move)
        StandardCursor::SbHDoubleArrow | StandardCursor::DoubleArrow => 5,  // resizeLeftRight
        StandardCursor::SbVDoubleArrow => 6,  // resizeUpDown
        StandardCursor::Watch | StandardCursor::Clock => 7,  // operationNotAllowed (closest to busy)
        StandardCursor::XCursor | StandardCursor::Pirate => 8,  // operationNotAllowed
        _ => 0,  // Default to arrow
    }
}

/// The backend event that an event report of the bridge for `window` stands for:
/// 2 a key press, 3 a key release, 4 a button press, 5 a button release, 6 a motion,
/// 8 focus in, 9 focus out, 10 the pointer entering and 11 it leaving; none for any
/// other type. Each number keeps the low bits that its field holds.
pub open spec fn event_of(
    window: BackendWindow,
    event_type: i32,
    x: i32,
    y: i32,
    keycode: i32,
    button: i32,
    state: i32,
    time: i32,
) -> Option<BackendEvent> {
    if event_type == 2 {
        Some(
            BackendEvent::KeyPress {
                window,
                keycode: keycode as u8,
                state: state as u16,
                time: time as u32,
                x: x as i16,
                y: y as i16,
            },
        )
    } else if event_type == 3 {
        Some(
            BackendEvent::KeyRelease {
                window,
                keycode: keycode as u8,
                state: state as u16,
                time: time as u32,
                x: x as i16,
                y: y as i16,
            },
        )
    } else if event_type == 4 {
        Some(
            BackendEvent::ButtonPress {
                window,
                button: button as u8,
                state: state as u16,
                time: time as u32,
                x: x as i16,
                y: y as i16,
            },
        )
    } else if event_type == 5 {
        Some(
            BackendEvent::ButtonRelease {
                window,
                button: button as u8,
                state: state as u16,
                time: time as u32,
                x: x as i16,
                y: y as i16,
            },
        )
    } else if event_type == 6 {
        Some(
            BackendEvent::MotionNotify {
                window,
                state: state as u16,
                time: time as u32,
                x: x as i16,
                y: y as i16,
            },
        )
    } else if event_type == 8 {
        Some(BackendEvent::FocusIn { window })
    } else if event_type == 9 {
        Some(BackendEvent::FocusOut { window })
    } else if event_type == 10 {
        Some(BackendEvent::EnterNotify { window, x: x as i16, y: y as i16, time: time as u32 })
    } else if event_type == 11 {
        Some(BackendEvent::LeaveNotify { window, x: x as i16, y: y as i16, time: time as u32 })
    } else {
        None
    }
}

/// The bridge's event types, each as the backend event it reports, with the window of
/// the report and the report's numbers carried over: 2 a key press and 3 a key
/// release of the key code, 4 a button press and 5 a button release of the button, 6
/// a motion, each with the state, time and position; 8 focus in and 9 focus out; 10
/// the pointer entering and 11 it leaving, at the position and time. Every other type
/// reports nothing.
pub proof fn lemma_bridge_event_types(
    window: BackendWindow,
    event_type: i32,
    x: i32,
    y: i32,
    keycode: i32,
    button: i32,
    state: i32,
    time: i32,
)
    ensures
        event_of(window, event_type, x, y, keycode, button, state, time) is Some
            <==> (2 <= event_type
            <= 6 || 8 <= event_type <= 11),
        event_type == 2 ==> event_of(window, event_type, x, y, keycode, button, state, time) == Some(
            BackendEvent::KeyPress {
                window,
                keycode: keycode as u8,
                state: state as u16,
                time: time as u32,
                x: x as i16,
                y: y as i16,
            },
        ),
        event_type == 3 ==> event_of(window, event_type, x, y, keycode, button, state, time) == Some(
            BackendEvent::KeyRelease {
                window,
                keycode: keycode as u8,
                state: state as u16,
                time: time as u32,
                x: x as i16,
                y: y as i16,
            },
        ),
        event_type == 4 ==> event_of(window, event_type, x, y, keycode, button, state, time) == Some(
            BackendEvent::ButtonPress {
                window,
                button: button as u8,
                state: state as u16,
                time: time as u32,
                x: x as i16,
                y: y as i16,
            },
        ),
        event_type == 5 ==> event_of(window, event_type, x, y, keycode, button, state, time) == Some(
            BackendEvent::ButtonRelease {
                window,
                button: button as u8,
                state: state as u16,
                time: time as u32,
                x: x as i16,
                y: y as i16,
            },
        ),
        event_type == 6 ==> event_of(window, event_type, x, y, keycode, button, state, time) == Some(
            BackendEvent::MotionNotify {
                window,
                state: state as u16,
                time: time as u32,
                x: x as i16,
                y: y as i16,
            },
        ),
        event_type == 8 ==> event_of(window, event_type, x, y, keycode, button, state, time) == Some(
            BackendEvent::FocusIn { window },
        ),
        event_type == 9 ==> event_of(window, event_type, x, y, keycode, button, state, time) == Some(
            BackendEvent::FocusOut { window },
        ),
        event_type == 10 ==> event_of(window, event_type, x, y, keycode, button, state, time) == Some(
            BackendEvent::EnterNotify { window, x: x as i16, y: y as i16, time: time as u32 },
        ),
        event_type == 11 ==> event_of(window, event_type, x, y, keycode, button, state, time) == Some(
            BackendEvent::LeaveNotify { window, x: x as i16, y: y as i16, time: time as u32 },
        ),
{
}

/// Convert an event report of the bridge for `window`, the backend window whose
/// bridge ID the report names, to a backend event (see `event_of`). The size in the
/// report is not used.
pub fn convert_event(
    window: BackendWindow,
    event_type: i32,
    x: i32,
    y: i32,
    _width: i32,
    _height: i32,
    keycode: i32,
    button: i32,
    state: i32,
    time: i32,
) -> (r: Option<BackendEvent>)
    ensures
        r == event_of(window, event_type, x, y, keycode, button, state, time),
{
    // Event type mapping from Swift backend:
    // 2 = KeyPress, 3 = KeyRelease, 4 = ButtonPress, 5 = ButtonRelease, 6 = MotionNotify
    // 8 = FocusIn, 9 = FocusOut, 10 = EnterNotify, 11 = LeaveNotify
    match event_type {
        2 => Some(
            BackendEvent::KeyPress {
                window,
                keycode: keycode as u8,
                state: state as u16,
                time: time as u32,
                x: x as i16,
                y: y as i16,
            },
        ),
        3 => Some(
            BackendEvent::KeyRelease {
                window,
                keycode: keycode as u8,
                state: state as u16,
                time: time as u32,
                x: x as i16,
                y: y as i16,
            },
        ),
        4 => Some(
            BackendEvent::ButtonPress {
                window,
                button: button as u8,
                state: state as u16,
                time: time as u32,
                x: x as i16,
                y: y as i16,
            },
        ),
        5 => Some(
            BackendEvent::ButtonRelease {
                window,
                button: button as u8,
                state: state as u16,
                time: time as u32,
                x: x as i16,
                y: y as i16,
            },
        ),
        6 => Some(
            BackendEvent::MotionNotify {
                window,
                state: state as u16,
                time: time as u32,
                x: x as i16,
                y: y as i16,
            },
        ),
        8 => Some(BackendEvent::FocusIn { window }),
        9 => Some(BackendEvent::FocusOut { window }),
        10 => Some(
            BackendEvent::EnterNotify { window, x: x as i16, y: y as i16, time: time as u32 },
        ),
        11 => Some(
            BackendEvent::LeaveNotify { window, x: x as i16, y: y as i16, time: time as u32 },
        ),
        _ => None,
    }
}

/// A font as the macOS backend describes it: 12 pixels, 12 points, 75 dpi, the
/// ISO 8859-1 character set, an ascent of 9 and a descent of 3.
pub open spec fn mac_font(
    xlfd_name: Seq<char>,
    family: Seq<char>,
    weight: Seq<char>,
    char_width: u16,
) -> FontView {
    FontView {
        xlfd_name,
        family,
        weight,
        slant: "r"@,
        pixel_size: 12,
        point_size: 120,
        char_width,
        ascent: 9,
        descent: 3,
        registry: "iso8859"@,
        encoding: "1"@,
    }
}

/// The fonts the macOS backend offers: Helvetica medium and bold, Times, and the
/// fixed-width Courier and Monaco.
pub open spec fn mac_fonts() -> Seq<FontView> {
    seq![
        mac_font(
            "-*-helvetica-medium-r-normal--12-120-75-75-p-0-iso8859-1"@,
            "Helvetica"@,
            "medium"@,
            0,
        ),
        mac_font("-*-helvetica-bold-r-normal--12-120-75-75-p-0-iso8859-1"@, "Helvetica"@, "bold"@, 0),
        mac_font("-*-times-medium-r-normal--12-120-75-75-p-0-iso8859-1"@, "Times"@, "medium"@, 0),
        mac_font(
            "-*-courier-medium-r-normal--12-120-75-75-m-70-iso8859-1"@,
            "Courier"@,
            "medium"@,
            70,
        ),
        mac_font("-*-monaco-medium-r-normal--12-120-75-75-m-70-iso8859-1"@, "Monaco"@, "medium"@, 70),
    ]
}

/// One font of the macOS backend (see `mac_font`).
fn font(xlfd_name: &str, family: &str, weight: &str, char_width: u16) -> (r: BackendFontInfo)
    ensures
        font_view(r) == mac_font(xlfd_name@, family@, weight@, char_width),
{
    BackendFontInfo {
        xlfd_name: xlfd_name.to_string(),
        family: family.to_string(),
        weight: weight.to_string(),
        slant: "r".to_string(),
        pixel_size: 12,
        point_size: 120,
        char_width,
        ascent: 9,
        descent: 3,
        registry: "iso8859".to_string(),
        encoding: "1".to_string(),
    }
}

/// The fonts the macOS backend offers (see `mac_fonts`): some common macOS system
/// fonts, for want of an enumeration of the installed ones.
pub fn list_system_fonts() -> (r: Vec<BackendFontInfo>)
    ensures
        r@.map_values(|f: BackendFontInfo| font_view(f)) == mac_fonts(),
{
    let mut fonts: Vec<BackendFontInfo> = Vec::new();
    fonts.push(
        font("-*-helvetica-medium-r-normal--12-120-75-75-p-0-iso8859-1", "Helvetica", "medium", 0),
    );
    fonts.push(
        font("-*-helvetica-bold-r-normal--12-120-75-75-p-0-iso8859-1", "Helvetica", "bold", 0),
    );
    fonts.push(font("-*-times-medium-r-normal--12-120-75-75-p-0-iso8859-1", "Times", "medium", 0));
    fonts.push(
        font("-*-courier-medium-r-normal--12-120-75-75-m-70-iso8859-1", "Courier", "medium", 70),
    );
    fonts.push(
        font("-*-monaco-medium-r-normal--12-120-75-75-m-70-iso8859-1", "Monaco", "medium", 70),
    );
    assert(fonts@.map_values(|f: BackendFontInfo| font_view(f)) =~= mac_fonts());
    fonts
}

} // verus!
