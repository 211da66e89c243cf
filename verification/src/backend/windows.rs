//! The decisions of the Windows backend that make no call into Win32: colors,
//! the system cursor for each standard cursor, the backend events that window
//! messages become, how images are handed over, and how an enumerated font is
//! described.
//!
//! The backend itself draws through the Win32 API, which is not part of this
//! library; what it reads from a message or a font it hands to these functions as
//! plain numbers.
use vstd::prelude::*;
use super::null::{font_view, BackendFontInfo, FontView};
use super::traits::{BackendError, BackendEvent, BackendWindow, StandardCursor};
use crate::protocol::wire::{decimal_digits, decimal_string, u16_as_i16, u16_to_i16};

verus! {

/// A Win32 color (`COLORREF`): red in the low byte, then green, then blue.
pub fn rgb(r: u8, g: u8, b: u8) -> (c: u32)
    ensures
        c == r + g * 256 + b * 65536,
{
    let c = (r as u32) | ((g as u32) << 8u32) | ((b as u32) << 16u32);
    assert(c == r + g * 256 + b * 65536) by (bit_vector)
        requires
            c == (r as u32) | ((g as u32) << 8u32) | ((b as u32) << 16u32),
    ;
    c
}

/// Extract RGB components from u32 color (0xRRGGBB)
pub fn color_to_rgb(color: u32) -> (r: (u8, u8, u8))
    ensures
        r.0 == (color / 65536) % 256,
        r.1 == (color / 256) % 256,
        r.2 == color % 256,
{
    let red = ((color >> 16u32) & 0xffu32) as u8;
    let green = ((color >> 8u32) & 0xffu32) as u8;
    let blue = (color & 0xffu32) as u8;
    assert(((color >> 16u32) & 0xffu32) == (color / 65536) % 256) by (bit_vector);
    assert(((color >> 8u32) & 0xffu32) == (color / 256) % 256) by (bit_vector);
    assert((color & 0xffu32) == color % 256) by (bit_vector);
    (red, green, blue)
}

/// The resource numbers of the Win32 system cursors.
pub const IDC_ARROW: u16 = 32512;
pub const IDC_IBEAM: u16 = 32513;
pub const IDC_WAIT: u16 = 32514;
pub const IDC_CROSS: u16 = 32515;
pub const IDC_SIZENWSE: u16 = 32642;
pub const IDC_SIZENESW: u16 = 32643;
pub const IDC_SIZEWE: u16 = 32644;
pub const IDC_SIZENS: u16 = 32645;
pub const IDC_SIZEALL: u16 = 32646;
pub const IDC_NO: u16 = 32648;
pub const IDC_HAND: u16 = 32649;
pub const IDC_HELP: u16 = 32651;

/// The system cursor that stands for a standard cursor; the arrow for those
/// without a close match.
pub open spec fn idc_of(cursor: StandardCursor) -> u16 {
    match cursor {
        StandardCursor::LeftPtr | StandardCursor::Arrow | StandardCursor::TopLeftArrow => IDC_ARROW,
        StandardCursor::Xterm => IDC_IBEAM,
        StandardCursor::Watch | StandardCursor::Clock => IDC_WAIT,
        StandardCursor::Crosshair | StandardCursor::Cross | StandardCursor::Tcross => IDC_CROSS,
        StandardCursor::Fleur => IDC_SIZEALL,
        StandardCursor::Hand1 | StandardCursor::Hand2 => IDC_HAND,
        StandardCursor::SbHDoubleArrow | StandardCursor::DoubleArrow => IDC_SIZEWE,
        StandardCursor::SbVDoubleArrow => IDC_SIZENS,
        StandardCursor::TopLeftCorner | StandardCursor::BottomRightCorner => IDC_SIZENWSE,
        StandardCursor::TopRightCorner | StandardCursor::BottomLeftCorner => IDC_SIZENESW,
        StandardCursor::TopSide | StandardCursor::BottomSide => IDC_SIZENS,
        StandardCursor::LeftSide | StandardCursor::RightSide => IDC_SIZEWE,
        StandardCursor::QuestionArrow => IDC_HELP,
        StandardCursor::XCursor | StandardCursor::Pirate => IDC_NO,
        _ => IDC_ARROW,
    }
}

/// Map StandardCursor to Windows system cursor ID (see `idc_of`)
pub fn standard_cursor_to_idc(cursor: StandardCursor) -> (r: u16)
    ensures
        r == idc_of(cursor),
{
    match cursor {
        StandardCursor::LeftPtr | StandardCursor::Arrow | StandardCursor::TopLeftArrow => IDC_ARROW,
        StandardCursor::Xterm => IDC_IBEAM,
        StandardCursor::Watch | StandardCursor::Clock => IDC_WAIT,
        StandardCursor::Crosshair | StandardCursor::Cross | StandardCursor::Tcross => IDC_CROSS,
        StandardCursor::Fleur => IDC_SIZEALL,
        StandardCursor::Hand1 | StandardCursor::Hand2 => IDC_HAND,
        StandardCursor::SbHDoubleArrow | StandardCursor::DoubleArrow => IDC_SIZEWE,
        StandardCursor::SbVDoubleArrow => IDC_SIZENS,
        StandardCursor::TopLeftCorner | StandardCursor::BottomRightCorner => IDC_SIZENWSE,
        StandardCursor::TopRightCorner | StandardCursor::BottomLeftCorner => IDC_SIZENESW,
        StandardCursor::TopSide | StandardCursor::BottomSide => IDC_SIZENS,
        StandardCursor::LeftSide | StandardCursor::RightSide => IDC_SIZEWE,
        StandardCursor::QuestionArrow => IDC_HELP,
        StandardCursor::XCursor | StandardCursor::Pirate => IDC_NO,
        _ => IDC_ARROW,  // Default to arrow for unmapped cursors
    }
}

/// The window messages the backend handles.
pub const WM_SIZE: u32 = 0x0005;
pub const WM_SETFOCUS: u32 = 0x0007;
pub const WM_KILLFOCUS: u32 = 0x0008;
pub const WM_PAINT: u32 = 0x000F;
pub const WM_SETCURSOR: u32 = 0x0020;
pub const WM_KEYDOWN: u32 = 0x0100;
pub const WM_KEYUP: u32 = 0x0101;
pub const WM_MOUSEMOVE: u32 = 0x0200;
pub const WM_LBUTTONDOWN: u32 = 0x0201;
pub const WM_LBUTTONUP: u32 = 0x0202;
pub const WM_RBUTTONDOWN: u32 = 0x0204;
pub const WM_RBUTTONUP: u32 = 0x0205;
pub const WM_MBUTTONDOWN: u32 = 0x0207;
pub const WM_MBUTTONUP: u32 = 0x0208;
pub const WM_MOUSELEAVE: u32 = 0x02A3;

/// The hit-test code of the client area of a window.
pub const HTCLIENT: u16 = 1;

/// The low 16 bits of a message parameter.
pub open spec fn low_word(l: isize) -> u16 {
    (l & 0xffff) as u16
}

/// Bits 16 to 31 of a message parameter.
pub open spec fn high_word(l: isize) -> u16 {
    ((l >> 16u32) & 0xffff) as u16
}

fn low_word_of(l: isize) -> (r: u16)
    ensures
        r == low_word(l),
{
    (l & 0xffff) as u16
}

fn high_word_of(l: isize) -> (r: u16)
    ensures
        r == high_word(l),
{
    ((l >> 16u32) & 0xffff) as u16
}

/// The X11 button of a mouse button message: 1 the left, 2 the middle, 3 the right.
pub open spec fn button_of(message: u32) -> u8 {
    if message == WM_RBUTTONDOWN || message == WM_RBUTTONUP {
        3
    } else if message == WM_MBUTTONDOWN || message == WM_MBUTTONUP {
        2
    } else {
        1
    }
}

/// The event that a window message for `window` gives when it is waited for: a
/// paint an exposure, a size change a configuration with the new size from the low
/// and high words of `lparam`, a button or motion message the button event or motion
/// at the position those words give (as signed numbers), a key message the key event
/// with the low byte of `wparam` as keycode, a focus message the focus event, at
/// `time`; no event for any other message.
pub open spec fn message_event_of(
    window: BackendWindow,
    message: u32,
    wparam: usize,
    lparam: isize,
    time: u32,
) -> Option<BackendEvent> {
    let x = u16_as_i16(low_word(lparam));
    let y = u16_as_i16(high_word(lparam));
    if message == WM_PAINT {
        Some(BackendEvent::Expose { window, x: 0, y: 0, width: 0, height: 0 })
    } else if message == WM_SIZE {
        Some(
            BackendEvent::Configure {
                window,
                x: 0,
                y: 0,
                width: low_word(lparam),
                height: high_word(lparam),
            },
        )
    } else if message == WM_LBUTTONDOWN || message == WM_RBUTTONDOWN || message
        == WM_MBUTTONDOWN {
        Some(BackendEvent::ButtonPress { window, button: button_of(message), state: 0, time, x, y })
    } else if message == WM_LBUTTONUP || message == WM_RBUTTONUP || message == WM_MBUTTONUP {
        Some(
            BackendEvent::ButtonRelease { window, button: button_of(message), state: 0, time, x, y },
        )
    } else if message == WM_MOUSEMOVE {
        Some(BackendEvent::MotionNotify { window, state: 0, time, x, y })
    } else if message == WM_KEYDOWN {
        Some(
            BackendEvent::KeyPress { window, keycode: wparam as u8, state: 0, time, x: 0, y: 0 },
        )
    } else if message == WM_KEYUP {
        Some(
            BackendEvent::KeyRelease { window, keycode: wparam as u8, state: 0, time, x: 0, y: 0 },
        )
    } else if message == WM_SETFOCUS {
        Some(BackendEvent::FocusIn { window })
    } else if message == WM_KILLFOCUS {
        Some(BackendEvent::FocusOut { window })
    } else {
        None
    }
}

/// A message parameter packed from two 16-bit words, the low one first, gives those
/// words back.
pub proof fn lemma_packed_words(low: u16, high: u16)
    ensures
        low_word((low + 65536 * high) as isize) == low,
        high_word((low + 65536 * high) as isize) == high,
{
    let l: isize = (low + 65536 * high) as isize;
    assert(l == (low as isize) | ((high as isize) << 16u32)) by (bit_vector)
        requires
            l == (low + 65536 * high) as isize,
    ;
    assert(((l & 0xffff) as u16) == low
        && (((l >> 16u32) & 0xffff) as u16) == high) by (bit_vector)
        requires
            l == (low as isize) | ((high as isize) << 16u32),
    ;
}

/// Window messages whose parameter packs the position `x` (low word) and `y` (high
/// word) as the system sends them give: a left, middle or right button going down
/// or up the press or release of button 1, 2 or 3 at that position (as signed
/// numbers); a mouse move the motion to it; a size change the configuration with
/// width `x` and height `y`; a paint an exposure. Key messages give the key of the
/// low byte of `wparam`, focus messages the focus event, all at `time` and for
/// `window`.
pub proof fn lemma_window_messages(
    window: BackendWindow,
    wparam: usize,
    x: u16,
    y: u16,
    time: u32,
)
    ensures
        ({
            let l = (x + 65536 * y) as isize;
            let px = u16_as_i16(x);
            let py = u16_as_i16(y);
            &&& message_event_of(window, WM_LBUTTONDOWN, wparam, l, time) == Some(
                BackendEvent::ButtonPress { window, button: 1, state: 0, time, x: px, y: py },
            )
            &&& message_event_of(window, WM_MBUTTONDOWN, wparam, l, time) == Some(
                BackendEvent::ButtonPress { window, button: 2, state: 0, time, x: px, y: py },
            )
            &&& message_event_of(window, WM_RBUTTONDOWN, wparam, l, time) == Some(
                BackendEvent::ButtonPress { window, button: 3, state: 0, time, x: px, y: py },
            )
            &&& message_event_of(window, WM_LBUTTONUP, wparam, l, time) == Some(
                BackendEvent::ButtonRelease { window, button: 1, state: 0, time, x: px, y: py },
            )
            &&& message_event_of(window, WM_MBUTTONUP, wparam, l, time) == Some(
                BackendEvent::ButtonRelease { window, button: 2, state: 0, time, x: px, y: py },
            )
            &&& message_event_of(window, WM_RBUTTONUP, wparam, l, time) == Some(
                BackendEvent::ButtonRelease { window, button: 3, state: 0, time, x: px, y: py },
            )
            &&& message_event_of(window, WM_MOUSEMOVE, wparam, l, time) == Some(
                BackendEvent::MotionNotify { window, state: 0, time, x: px, y: py },
            )
            &&& message_event_of(window, WM_SIZE, wparam, l, time) == Some(
                BackendEvent::Configure { window, x: 0, y: 0, width: x, height: y },
            )
            &&& message_event_of(window, WM_PAINT, wparam, l, time) == Some(
                BackendEvent::Expose { window, x: 0, y: 0, width: 0, height: 0 },
            )
            &&& message_event_of(window, WM_KEYDOWN, wparam, l, time) == Some(
                BackendEvent::KeyPress { window, keycode: wparam as u8, state: 0, time, x: 0, y: 0 },
            )
            &&& message_event_of(window, WM_KEYUP, wparam, l, time) == Some(
                BackendEvent::KeyRelease { window, keycode: wparam as u8, state: 0, time, x: 0, y: 0 },
            )
            &&& message_event_of(window, WM_SETFOCUS, wparam, l, time) == Some(
                BackendEvent::FocusIn { window },
            )
            &&& message_event_of(window, WM_KILLFOCUS, wparam, l, time) == Some(
                BackendEvent::FocusOut { window },
            )
        }),
{
    lemma_packed_words(x, y);
}

/// The event that a window message for `window` gives when it is waited for (see
/// `message_event_of`).
pub fn message_event(window: BackendWindow, message: u32, wparam: usize, lparam: isize, time: u32) -> (r:
    Option<BackendEvent>)
    ensures
        r == message_event_of(window, message, wparam, lparam, time),
{
    let x = u16_to_i16(low_word_of(lparam));
    let y = u16_to_i16(high_word_of(lparam));
    if message == WM_PAINT {
        Some(BackendEvent::Expose { window, x: 0, y: 0, width: 0, height: 0 })
    } else if message == WM_SIZE {
        let width = low_word_of(lparam);
        let height = high_word_of(lparam);
        Some(BackendEvent::Configure { window, x: 0, y: 0, width, height })
    } else if message == WM_LBUTTONDOWN || message == WM_RBUTTONDOWN || message
        == WM_MBUTTONDOWN {
        let button: u8 = if message == WM_RBUTTONDOWN {
            3
        } else if message == WM_MBUTTONDOWN {
            2
        } else {
            1
        };
        Some(BackendEvent::ButtonPress { window, button, state: 0, time, x, y })
    } else if message == WM_LBUTTONUP || message == WM_RBUTTONUP || message == WM_MBUTTONUP {
        let button: u8 = if message == WM_RBUTTONUP {
            3
        } else if message == WM_MBUTTONUP {
            2
        } else {
            1
        };
        Some(BackendEvent::ButtonRelease { window, button, state: 0, time, x, y })
    } else if message == WM_MOUSEMOVE {
        Some(BackendEvent::MotionNotify { window, state: 0, time, x, y })
    } else if message == WM_KEYDOWN {
        Some(
            BackendEvent::KeyPress { window, keycode: wparam as u8, state: 0, time, x: 0, y: 0 },
        )
    } else if message == WM_KEYUP {
        Some(
            BackendEvent::KeyRelease { window, keycode: wparam as u8, state: 0, time, x: 0, y: 0 },
        )
    } else if message == WM_SETFOCUS {
        Some(BackendEvent::FocusIn { window })
    } else if message == WM_KILLFOCUS {
        Some(BackendEvent::FocusOut { window })
    } else {
        None
    }
}

/// Which of the backend's windows a window handle belongs to: the first of
/// `windows` (pairs of our window number and the system's handle) with that handle;
/// none when no window has it.
pub fn window_for_handle(windows: &[(usize, isize)], handle: isize) -> (r: Option<BackendWindow>)
    ensures
        match r {
            Some(w) => exists|i: int|
                0 <= i < windows@.len() && windows@[i] == (w.0, handle) && forall|j: int|
                    0 <= j < i ==> (#[trigger] windows@[j]).1 != handle,
            None => forall|j: int| 0 <= j < windows@.len() ==> (#[trigger] windows@[j]).1 != handle,
        },
{
    let mut i: usize = 0;
    while i < windows.len()
        invariant
            i <= windows@.len(),
            forall|j: int| 0 <= j < i ==> (#[trigger] windows@[j]).1 != handle,
        decreases windows@.len() - i,
    {
        let (id, h) = windows[i];
        if h == handle {
            return Some(BackendWindow(id));
        }
        i = i + 1;
    }
    None
}

/// The event that waiting hands out first, before it waits for a message: the one
/// queued last, if any; the queue is a stack.
pub fn take_queued(queue: &mut Vec<BackendEvent>) -> (r: Option<BackendEvent>)
    ensures
        old(queue)@.len() == 0 ==> r is None && final(queue)@ == old(queue)@,
        old(queue)@.len() > 0 ==> r == Some(old(queue)@.last()) && final(queue)@ == old(
            queue,
        )@.drop_last(),
{
    queue.pop()
}

/// What waiting does with one message.
pub struct WaitStep {
    /// The end of the wait (`Ok(Some(..))` an event, `Err` a failure), or `Ok(None)`
    /// to go on waiting
    pub outcome: Result<Option<BackendEvent>, BackendError>,
    /// The window's new size, where the message reports one
    pub new_size: Option<(u16, u16)>,
    /// Whether the window's backing store is made again at the new size
    pub resize_backing: bool,
    /// Whether to show the window's own cursor
    pub show_cursor: bool,
}

/// What waiting does with what getting a message returned (`got`) and the message:
/// 0 (the quit message) or -1 (a failure) ends the wait with an error and does
/// nothing else. Otherwise, for a message to one of the backend's windows
/// (`window`), a message that gives an event (see `message_event_of`) ends the wait
/// with that event; a size change also reports the new size and remakes the backing
/// store when neither side is zero; the window's cursor is shown when the system asks
/// for a cursor over the client area. Any other message, and any message to another
/// window, lets the wait go on and does nothing.
pub fn wait_step(
    got: i32,
    window: Option<BackendWindow>,
    message: u32,
    wparam: usize,
    lparam: isize,
    time: u32,
) -> (r: WaitStep)
    ensures
        (got == 0 || got == -1) ==> (r.outcome matches Err(e) && e.message@
            == "GetMessage failed or received WM_QUIT"@) && r.new_size is None
            && !r.resize_backing && !r.show_cursor,
        !(got == 0 || got == -1) ==> r.outcome == Ok::<Option<BackendEvent>, BackendError>(
            match window {
                Some(w) => message_event_of(w, message, wparam, lparam, time),
                None => None,
            },
        ),
        !(got == 0 || got == -1) ==> r.new_size == if window is Some && message == WM_SIZE {
            Some((low_word(lparam), high_word(lparam)))
        } else {
            None::<(u16, u16)>
        },
        !(got == 0 || got == -1) ==> r.resize_backing == (window is Some && message == WM_SIZE
            && low_word(lparam) > 0 && high_word(lparam) > 0),
        !(got == 0 || got == -1) ==> r.show_cursor == (window is Some && message == WM_SETCURSOR
            && low_word(lparam) == HTCLIENT),
{
    if got == 0 || got == -1 {
        return WaitStep {
            outcome: Err(BackendError::new("GetMessage failed or received WM_QUIT".to_string())),
            new_size: None,
            resize_backing: false,
            show_cursor: false,
        };
    }
    match window {
        Some(w) => {
            let low = low_word_of(lparam);
            let high = high_word_of(lparam);
            let new_size = if message == WM_SIZE {
                Some((low, high))
            } else {
                None
            };
            WaitStep {
                outcome: Ok(message_event(w, message, wparam, lparam, time)),
                new_size,
                resize_backing: message == WM_SIZE && low > 0 && high > 0,
                show_cursor: message == WM_SETCURSOR && low == HTCLIENT,
            }
        },
        None => WaitStep { outcome: Ok(None), new_size: None, resize_backing: false, show_cursor: false },
    }
}

/// The events that polling queued, handed out in the order they were queued; the
/// queue is left empty.
pub fn drain_queue(queue: &mut Vec<BackendEvent>) -> (r: Vec<BackendEvent>)
    ensures
        r@ == old(queue)@,
        final(queue)@ == Seq::<BackendEvent>::empty(),
{
    let mut taken: Vec<BackendEvent> = Vec::new();
    std::mem::swap(queue, &mut taken);
    taken
}

/// What the backend does with a window message for one of its windows when it
/// polls for events.
pub struct MessageStep {
    /// The events the message gives, in order
    pub events: Vec<BackendEvent>,
    /// Whether the mouse is inside the window afterwards
    pub mouse_inside: bool,
    /// The window's new size, where the message reports one
    pub new_size: Option<(u16, u16)>,
    /// Whether the window's backing store is made again at the new size
    pub resize_backing: bool,
    /// Whether to ask to be told when the mouse leaves the window
    pub track_leave: bool,
    /// Whether to show the window's own cursor
    pub show_cursor: bool,
}

/// The events that a window message for `window` gives when the backend polls:
/// the mouse moving in from outside first enters the window, and leaving it (once
/// inside) gives a leave event; every other message gives what `message_event_of`
/// gives.
pub open spec fn polled_events_of(
    window: BackendWindow,
    mouse_inside: bool,
    message: u32,
    wparam: usize,
    lparam: isize,
    time: u32,
) -> Seq<BackendEvent> {
    let x = u16_as_i16(low_word(lparam));
    let y = u16_as_i16(high_word(lparam));
    let motion = BackendEvent::MotionNotify { window, state: 0, time, x, y };
    if message == WM_MOUSEMOVE {
        if mouse_inside {
            seq![motion]
        } else {
            seq![BackendEvent::EnterNotify { window, x, y, time }, motion]
        }
    } else if message == WM_MOUSELEAVE {
        if mouse_inside {
            seq![BackendEvent::LeaveNotify { window, x: 0, y: 0, time }]
        } else {
            Seq::empty()
        }
    } else {
        match message_event_of(window, message, wparam, lparam, time) {
            Some(e) => seq![e],
            None => Seq::empty(),
        }
    }
}

/// What the backend does with a window message for `window`, inside which the mouse
/// is or is not, when it polls: the events (see `polled_events_of`); the mouse is
/// inside after a motion and outside after a leave; a size change reports the new
/// size and remakes the backing store when neither side is zero; a first motion
/// asks to hear of the mouse leaving; and the window's cursor is shown when the
/// system asks for a cursor over the client area.
pub fn poll_step(
    window: BackendWindow,
    mouse_inside: bool,
    message: u32,
    wparam: usize,
    lparam: isize,
    time: u32,
) -> (r: MessageStep)
    ensures
        r.events@ == polled_events_of(window, mouse_inside, message, wparam, lparam, time),
        r.mouse_inside == if message == WM_MOUSEMOVE {
            true
        } else if message == WM_MOUSELEAVE {
            false
        } else {
            mouse_inside
        },
        r.new_size == if message == WM_SIZE {
            Some((low_word(lparam), high_word(lparam)))
        } else {
            None::<(u16, u16)>
        },
        r.resize_backing == (message == WM_SIZE && low_word(lparam) > 0 && high_word(lparam) > 0),
        r.track_leave == (message == WM_MOUSEMOVE && !mouse_inside),
        r.show_cursor == (message == WM_SETCURSOR && low_word(lparam) == HTCLIENT),
{
    let low = low_word_of(lparam);
    let high = high_word_of(lparam);
    let mut events: Vec<BackendEvent> = Vec::new();
    let mut inside = mouse_inside;
    let mut track_leave = false;
    if message == WM_MOUSEMOVE {
        let x = u16_to_i16(low);
        let y = u16_to_i16(high);
        // Check if mouse just entered
        if !mouse_inside {
            inside = true;
            track_leave = true;
            events.push(BackendEvent::EnterNotify { window, x, y, time });
        }
        events.push(BackendEvent::MotionNotify { window, state: 0, time, x, y });
    } else if message == WM_MOUSELEAVE {
        if mouse_inside {
            inside = false;
            events.push(BackendEvent::LeaveNotify { window, x: 0, y: 0, time });
        }
    } else {
        match message_event(window, message, wparam, lparam, time) {
            Some(e) => events.push(e),
            None => {},
        }
    }
    assert(events@ =~= polled_events_of(window, mouse_inside, message, wparam, lparam, time));
    let new_size = if message == WM_SIZE {
        Some((low, high))
    } else {
        None
    };
    MessageStep {
        events,
        mouse_inside: inside,
        new_size,
        resize_backing: message == WM_SIZE && low > 0 && high > 0,
        track_leave,
        show_cursor: message == WM_SETCURSOR && low == HTCLIENT,
    }
}

/// The bits per pixel of the device-independent bitmap that an image of `depth`
/// is drawn as.
pub open spec fn dib_bits_of(depth: u8) -> u16 {
    if depth == 1 {
        1
    } else if depth <= 8 {
        8
    } else if depth <= 16 {
        16
    } else if depth <= 24 {
        24
    } else {
        32
    }
}

/// How an image put in `format` (0 Bitmap, 1 XYPixmap, 2 ZPixmap) of `depth` is
/// drawn: a ZPixmap as a device-independent bitmap with `dib_bits_of(depth)` bits
/// per pixel (`Some`); a bitmap or XYPixmap not at all (`None`); any other format is
/// refused.
pub fn put_image_bits(format: u8, depth: u8) -> (r: Result<Option<u16>, BackendError>)
    ensures
        format == 2 ==> r == Ok::<Option<u16>, BackendError>(Some(dib_bits_of(depth))),
        format == 0 || format == 1 ==> r == Ok::<Option<u16>, BackendError>(None),
        format > 2 ==> (r matches Err(e) && e.message@ == "Unknown image format: "@
            + decimal_digits(format as nat)),
{
    match format {
        2 => {
            // ZPixmap format - packed pixels (RGBA/RGB)
            let bits_per_pixel: u16 = if depth == 1 {
                1
            } else if depth <= 8 {
                8
            } else if depth <= 16 {
                16
            } else if depth <= 24 {
                24
            } else {
                32
            };
            Ok(Some(bits_per_pixel))
        },
        // Bitmap or XYPixmap formats - used for cursor/stipple patterns, not shown
        0 | 1 => Ok(None),
        _ => Err(
            BackendError::new(
                "Unknown image format: ".to_string().concat(decimal_string(format as usize).as_str()),
            ),
        ),
    }
}

/// What an image read in `format` reports: a ZPixmap is read as 32 bits per pixel
/// and reported with depth 24 and the TrueColor visual 0x21; a bitmap or XYPixmap is
/// not read, and any other format is refused.
pub fn get_image_format(format: u8) -> (r: Result<(u8, u32), BackendError>)
    ensures
        format == 2 ==> r == Ok::<(u8, u32), BackendError>((24, 0x21)),
        format == 0 || format == 1 ==> (r matches Err(e) && e.message@ == "Image format "@
            + decimal_digits(format as nat) + " not yet implemented"@),
        format > 2 ==> (r matches Err(e) && e.message@ == "Unknown image format: "@
            + decimal_digits(format as nat)),
{
    let depth = 24u8;
    let visual = 0x21u32;  // TrueColor visual
    match format {
        2 => Ok((depth, visual)),
        0 | 1 => Err(
            BackendError::new(
                "Image format ".to_string().concat(decimal_string(format as usize).as_str()).concat(
                    " not yet implemented",
                ),
            ),
        ),
        _ => Err(
            BackendError::new(
                "Unknown image format: ".to_string().concat(decimal_string(format as usize).as_str()),
            ),
        ),
    }
}

/// `char::from_u32`: the character whose scalar value is `i`, if `i` is one (not a
/// surrogate and at most 0x10FFFF), as the standard library documents.
#[verifier::external_body]
fn char_from_u32(i: u32) -> (r: Option<char>)
    ensures
        r is Some <==> (i <= 0xD7FF || (0xE000 <= i && i <= 0x10FFFF)),
        r matches Some(c) ==> c as u32 == i,
{
    char::from_u32(i)
}

/// `char::to_string`: the text of the one character `c`, as the standard library
/// documents the `Display` of a `char`.
#[verifier::external_body]
fn char_text(c: char) -> (s: String)
    ensures
        s@ == seq![c],
{
    c.to_string()
}

/// The character of a UTF-16 code unit of a face name; '?' for a surrogate.
pub open spec fn unit_char(u: u16) -> char {
    if 0xD800 <= u && u <= 0xDFFF {
        '?'
    } else {
        u as char
    }
}

/// A character is the one its scalar value stands for.
proof fn lemma_char_of_unit(c: char, u: u16)
    requires
        c as u32 == u,
    ensures
        c == u as char,
{
}

/// The face name that UTF-16 code units hold: their characters up to the first zero.
pub open spec fn face_name(units: Seq<u16>) -> Seq<char>
    decreases units.len(),
{
    if units.len() == 0 || units[0] == 0 {
        Seq::empty()
    } else {
        seq![unit_char(units[0])] + face_name(units.skip(1))
    }
}

/// Read the face name that UTF-16 code units hold (see `face_name`).
pub fn face_name_of(units: &[u16]) -> (r: String)
    ensures
        r@ == face_name(units@),
{
    proof { reveal_strlit(""); }
    let mut name = "".to_string();
    let mut i: usize = 0;
    assert(units@.skip(0) =~= units@);
    while i < units.len() && units[i] != 0
        invariant
            i <= units@.len(),
            face_name(units@) == name@ + face_name(units@.skip(i as int)),
        decreases units@.len() - i,
    {
        let u = units[i];
        let c = match char_from_u32(u as u32) {
            Some(c) => {
                proof { lemma_char_of_unit(c, u); }
                c
            },
            None => '?',
        };
        assert(c == unit_char(u));
        assert(units@.skip(i as int).skip(1) =~= units@.skip(i + 1));
        assert(face_name(units@.skip(i as int)) == seq![c] + face_name(units@.skip(i + 1)));
        name = name.concat(char_text(c).as_str());
        i = i + 1;
        assert(face_name(units@) =~= name@ + face_name(units@.skip(i as int)));
    }
    assert(face_name(units@.skip(i as int)) =~= Seq::<char>::empty());
    assert(face_name(units@) =~= name@);
    name
}

/// A TrueType font, in the font type of an enumerated font.
pub const TRUETYPE_FONTTYPE: u32 = 4;
/// A fixed-pitch font, in the pitch and family of a font.
pub const FIXED_PITCH: u8 = 1;

/// The character sets of fonts.
pub const ANSI_CHARSET: u8 = 0;
pub const SYMBOL_CHARSET: u8 = 2;
pub const SHIFTJIS_CHARSET: u8 = 128;
pub const HANGEUL_CHARSET: u8 = 129;
pub const GB2312_CHARSET: u8 = 134;
pub const CHINESEBIG5_CHARSET: u8 = 136;
pub const GREEK_CHARSET: u8 = 161;
pub const TURKISH_CHARSET: u8 = 162;
pub const HEBREW_CHARSET: u8 = 177;
pub const ARABIC_CHARSET: u8 = 178;
pub const BALTIC_CHARSET: u8 = 186;
pub const RUSSIAN_CHARSET: u8 = 204;
pub const THAI_CHARSET: u8 = 222;
pub const EASTEUROPE_CHARSET: u8 = 238;

/// The XLFD weight of a font weight (100 to 900).
pub open spec fn weight_name(weight: i32) -> Seq<char> {
    if weight <= 100 {
        "thin"@
    } else if weight <= 200 {
        "extralight"@
    } else if weight <= 300 {
        "light"@
    } else if weight <= 500 {
        "medium"@
    } else if weight <= 600 {
        "demibold"@
    } else if weight <= 700 {
        "bold"@
    } else if weight <= 800 {
        "extrabold"@
    } else {
        "black"@
    }
}

/// The XLFD registry and encoding of a character set; ISO 10646-1 (Unicode) for
/// the others.
pub open spec fn charset_names(charset: u8) -> (Seq<char>, Seq<char>) {
    if charset == ANSI_CHARSET {
        ("iso8859"@, "1"@)
    } else if charset == SYMBOL_CHARSET {
        ("adobe"@, "fontspecific"@)
    } else if charset == SHIFTJIS_CHARSET {
        ("jisx0208.1983"@, "0"@)
    } else if charset == HANGEUL_CHARSET {
        ("ksc5601.1987"@, "0"@)
    } else if charset == GB2312_CHARSET {
        ("gb2312.1980"@, "0"@)
    } else if charset == CHINESEBIG5_CHARSET {
        ("big5"@, "0"@)
    } else if charset == GREEK_CHARSET {
        ("iso8859"@, "7"@)
    } else if charset == TURKISH_CHARSET {
        ("iso8859"@, "9"@)
    } else if charset == HEBREW_CHARSET {
        ("iso8859"@, "8"@)
    } else if charset == ARABIC_CHARSET {
        ("iso8859"@, "6"@)
    } else if charset == BALTIC_CHARSET {
        ("iso8859"@, "13"@)
    } else if charset == RUSSIAN_CHARSET {
        ("koi8"@, "r"@)
    } else if charset == THAI_CHARSET {
        ("tis620.2533"@, "0"@)
    } else if charset == EASTEUROPE_CHARSET {
        ("iso8859"@, "2"@)
    } else {
        ("iso10646"@, "1"@)
    }
}

/// The pixel size of a font height: its magnitude (a negative height is the
/// character height), in 16 bits.
pub open spec fn pixel_size_of(height: i32) -> u16 {
    if height < 0 {
        (-height) as u16
    } else {
        height as u16
    }
}

/// The point size in decipoints of a pixel size at 96 dpi; 12 points where the
/// size is zero.
pub open spec fn point_size_of(pixel_size: u16) -> u16 {
    if pixel_size > 0 {
        ((pixel_size * 720) / 96) as u16
    } else {
        120
    }
}

/// The description of a font that the system enumerates, from its font type, face
/// name (UTF-16 code units), weight, italic flag, height, pitch and family,
/// character set, average character width, ascent and descent: none for a font
/// that is not TrueType or whose face name starts with '@' (a vertical font). The
/// XLFD name is left empty; the width is that of a fixed-pitch font and 0 for a
/// proportional one.
pub open spec fn enumerated_font(
    font_type: u32,
    face: Seq<u16>,
    weight: i32,
    italic: u8,
    height: i32,
    pitch_and_family: u8,
    charset: u8,
    ave_char_width: i32,
    ascent: i32,
    descent: i32,
) -> Option<FontView> {
    let family = face_name(face);
    if font_type & TRUETYPE_FONTTYPE == 0 || (family.len() > 0 && family[0] == '@') {
        None
    } else {
        let pixel_size = pixel_size_of(height);
        Some(
            FontView {
                xlfd_name: Seq::empty(),
                family,
                weight: weight_name(weight),
                slant: if italic != 0 {
                    "i"@
                } else {
                    "r"@
                },
                pixel_size,
                point_size: point_size_of(pixel_size),
                char_width: if pitch_and_family & FIXED_PITCH != 0 {
                    ave_char_width as u16
                } else {
                    0
                },
                ascent: ascent as i16,
                descent: descent as i16,
                registry: charset_names(charset).0,
                encoding: charset_names(charset).1,
            },
        )
    }
}

/// The XLFD weight of a font weight (see `weight_name`).
fn weight_text(weight: i32) -> (r: &'static str)
    ensures
        r@ == weight_name(weight),
{
    if weight <= 100 {
        "thin"
    } else if weight <= 200 {
        "extralight"
    } else if weight <= 300 {
        "light"
    } else if weight <= 500 {
        "medium"
    } else if weight <= 600 {
        "demibold"
    } else if weight <= 700 {
        "bold"
    } else if weight <= 800 {
        "extrabold"
    } else {
        "black"
    }
}

/// The XLFD registry and encoding of a character set (see `charset_names`).
fn charset_texts(charset: u8) -> (r: (&'static str, &'static str))
    ensures
        (r.0@, r.1@) == charset_names(charset),
{
    if charset == ANSI_CHARSET {
        ("iso8859", "1")
    } else if charset == SYMBOL_CHARSET {
        ("adobe", "fontspecific")
    } else if charset == SHIFTJIS_CHARSET {
        ("jisx0208.1983", "0")
    } else if charset == HANGEUL_CHARSET {
        ("ksc5601.1987", "0")
    } else if charset == GB2312_CHARSET {
        ("gb2312.1980", "0")
    } else if charset == CHINESEBIG5_CHARSET {
        ("big5", "0")
    } else if charset == GREEK_CHARSET {
        ("iso8859", "7")
    } else if charset == TURKISH_CHARSET {
        ("iso8859", "9")
    } else if charset == HEBREW_CHARSET {
        ("iso8859", "8")
    } else if charset == ARABIC_CHARSET {
        ("iso8859", "6")
    } else if charset == BALTIC_CHARSET {
        ("iso8859", "13")
    } else if charset == RUSSIAN_CHARSET {
        ("koi8", "r")
    } else if charset == THAI_CHARSET {
        ("tis620.2533", "0")
    } else if charset == EASTEUROPE_CHARSET {
        ("iso8859", "2")
    } else {
        ("iso10646", "1")  // Unicode fallback
    }
}

/// Describe a font that the system enumerates (see `enumerated_font`). A height of
/// `i32::MIN` has no magnitude in 32 bits and is not taken.
pub fn enumerated_font_info(
    font_type: u32,
    face: &[u16],
    weight: i32,
    italic: u8,
    height: i32,
    pitch_and_family: u8,
    charset: u8,
    ave_char_width: i32,
    ascent: i32,
    descent: i32,
) -> (r: Option<BackendFontInfo>)
    requires
        height != i32::MIN,
    ensures
        match r {
            Some(f) => enumerated_font(
                font_type,
                face@,
                weight,
                italic,
                height,
                pitch_and_family,
                charset,
                ave_char_width,
                ascent,
                descent,
            ) == Some(font_view(f)),
            None => enumerated_font(
                font_type,
                face@,
                weight,
                italic,
                height,
                pitch_and_family,
                charset,
                ave_char_width,
                ascent,
                descent,
            ) is None,
        },
{
    // Skip raster fonts (we want TrueType/OpenType)
    if font_type & TRUETYPE_FONTTYPE == 0 {
        return None;
    }
    let family = face_name_of(face);
    // Skip fonts starting with @ (vertical fonts)
    if family.unicode_len() > 0 && family.as_str().get_char(0) == '@' {
        return None;
    }
    let slant = if italic != 0 {
        "i"
    } else {
        "r"
    };
    // Calculate pixel size from height (can be negative for character height)
    let pixel_size = if height < 0 {
        (-height) as u16
    } else {
        height as u16
    };
    // Point size in decipoints (pixel * 720 / 96 for 96 DPI)
    let point_size = if pixel_size > 0 {
        ((pixel_size as u32 * 720) / 96) as u16
    } else {
        120  // Default 12pt
    };
    // Character width (0 for proportional, actual width for fixed-pitch)
    let char_width = if pitch_and_family & FIXED_PITCH != 0 {
        ave_char_width as u16
    } else {
        0
    };
    let (registry, encoding) = charset_texts(charset);
    proof { reveal_strlit(""); }
    let info = BackendFontInfo {
        xlfd_name: "".to_string(),
        family,
        weight: weight_text(weight).to_string(),
        slant: slant.to_string(),
        pixel_size,
        point_size,
        char_width,
        ascent: ascent as i16,
        descent: descent as i16,
        registry: registry.to_string(),
        encoding: encoding.to_string(),
    };
    assert(info.xlfd_name@ == Seq::<char>::empty());
    assert(info.weight@ == weight_name(weight));
    assert(info.registry@ == charset_names(charset).0);
    assert(info.encoding@ == charset_names(charset).1);
    Some(info)
}

} // verus!
