//! Core X11 protocol types.
//!
//! These types represent the fundamental data types used in the X11 protocol.
//! They are kept minimal and close to the wire protocol.
use vstd::prelude::*;

pub mod event_mask;
pub mod modifier_mask;
use super::wire::{hex_digits, hex_string};

verus! {

/// X11 resource ID, used for windows, pixmaps, graphics contexts and so on.
#[derive(Debug, Clone, Copy, PartialEq, Eq, Hash, Structural)]
pub struct XID(pub u32);

impl XID {
    /// The null resource.
    pub fn none() -> (r: Self)
        ensures
            r == XID(0),
    {
        XID(0)
    }

    pub fn new(id: u32) -> (r: Self)
        ensures
            r == XID(id),
    {
        XID(id)
    }

    pub fn get(&self) -> (r: u32)
        ensures
            r == self.0,
    {
        self.0
    }

    /// The ID as text, as its `Display` writes it: `0x` and eight hexadecimal digits.
    pub fn to_string(&self) -> (r: String)
        ensures
            r@ == "0x"@ + hex_digits(self.0 as nat, 8),
    {
        "0x".to_string().concat(hex_string(self.0, 8).as_str())
    }
}

/// Window ID
#[derive(Debug, Clone, Copy, PartialEq, Eq, Hash, Structural)]
pub struct Window(pub XID);

impl Window {
    /// The null resource.
    pub fn none() -> (r: Self)
        ensures
            r == Window(XID(0)),
    {
        Window(XID(0))
    }

    pub fn new(id: u32) -> (r: Self)
        ensures
            r == Window(XID(id)),
    {
        Window(XID::new(id))
    }

    pub fn id(&self) -> (r: XID)
        ensures
            r == self.0,
    {
        self.0
    }
}

/// Pixmap ID
#[derive(Debug, Clone, Copy, PartialEq, Eq, Hash, Structural)]
pub struct Pixmap(pub XID);

impl Pixmap {
    /// The null resource.
    pub fn none() -> (r: Self)
        ensures
            r == Pixmap(XID(0)),
    {
        Pixmap(XID(0))
    }

    pub fn new(id: u32) -> (r: Self)
        ensures
            r == Pixmap(XID(id)),
    {
        Pixmap(XID::new(id))
    }

    pub fn id(&self) -> (r: XID)
        ensures
            r == self.0,
    {
        self.0
    }
}

/// Drawable: either a window or a pixmap.
#[derive(Debug, Clone, Copy, PartialEq, Eq, Hash, Structural)]
pub enum Drawable {
    Window(Window),
    Pixmap(Pixmap),
}

impl Drawable {
    /// The resource ID of the drawable, whichever kind it is.
    pub open spec fn spec_id(self) -> XID {
        match self {
            Drawable::Window(w) => w.0,
            Drawable::Pixmap(p) => p.0,
        }
    }

    pub fn id(&self) -> (r: XID)
        ensures
            r == self.spec_id(),
    {
        match self {
            Drawable::Window(w) => w.id(),
            Drawable::Pixmap(p) => p.id(),
        }
    }

    /// A drawable read off the wire: without further context it is taken to be a window.
    pub fn from_id(id: u32) -> (r: Self)
        ensures
            r == Drawable::Window(Window(XID(id))),
    {
        Drawable::Window(Window::new(id))
    }
}

/// Graphics Context ID
#[derive(Debug, Clone, Copy, PartialEq, Eq, Hash, Structural)]
pub struct GContext(pub XID);

impl GContext {
    pub fn new(id: u32) -> (r: Self)
        ensures
            r == GContext(XID(id)),
    {
        GContext(XID::new(id))
    }

    pub fn id(&self) -> (r: XID)
        ensures
            r == self.0,
    {
        self.0
    }
}

/// Colormap ID
#[derive(Debug, Clone, Copy, PartialEq, Eq, Hash, Structural)]
pub struct Colormap(pub XID);

impl Colormap {
    /// The null resource.
    pub fn none() -> (r: Self)
        ensures
            r == Colormap(XID(0)),
    {
        Colormap(XID(0))
    }

    pub fn new(id: u32) -> (r: Self)
        ensures
            r == Colormap(XID(id)),
    {
        Colormap(XID::new(id))
    }

    pub fn id(&self) -> (r: XID)
        ensures
            r == self.0,
    {
        self.0
    }
}

/// Cursor ID
#[derive(Debug, Clone, Copy, PartialEq, Eq, Hash, Structural)]
pub struct Cursor(pub XID);

impl Cursor {
    /// The null resource.
    pub fn none() -> (r: Self)
        ensures
            r == Cursor(XID(0)),
    {
        Cursor(XID(0))
    }

    pub fn new(id: u32) -> (r: Self)
        ensures
            r == Cursor(XID(id)),
    {
        Cursor(XID::new(id))
    }

    pub fn id(&self) -> (r: XID)
        ensures
            r == self.0,
    {
        self.0
    }
}

/// Font ID
#[derive(Debug, Clone, Copy, PartialEq, Eq, Hash, Structural)]
pub struct Font(pub XID);

impl Font {
    /// The null resource.
    pub fn none() -> (r: Self)
        ensures
            r == Font(XID(0)),
    {
        Font(XID(0))
    }

    pub fn new(id: u32) -> (r: Self)
        ensures
            r == Font(XID(id)),
    {
        Font(XID::new(id))
    }

    pub fn id(&self) -> (r: XID)
        ensures
            r == self.0,
    {
        self.0
    }
}

/// Atom: interned string identifier.
#[derive(Debug, Clone, Copy, PartialEq, Eq, Hash, Structural)]
pub struct Atom(pub u32);

impl Atom {
    // The IDs of the predefined atoms.
    pub const NONE: u32 = 0;
    pub const PRIMARY: u32 = 1;
    pub const SECONDARY: u32 = 2;
    pub const ARC: u32 = 3;
    pub const ATOM: u32 = 4;
    pub const BITMAP: u32 = 5;
    pub const CARDINAL: u32 = 6;
    pub const COLORMAP: u32 = 7;
    pub const CURSOR: u32 = 8;
    pub const CUT_BUFFER0: u32 = 9;
    pub const CUT_BUFFER1: u32 = 10;
    pub const CUT_BUFFER2: u32 = 11;
    pub const CUT_BUFFER3: u32 = 12;
    pub const CUT_BUFFER4: u32 = 13;
    pub const CUT_BUFFER5: u32 = 14;
    pub const CUT_BUFFER6: u32 = 15;
    pub const CUT_BUFFER7: u32 = 16;
    pub const DRAWABLE: u32 = 17;
    pub const FONT: u32 = 18;
    pub const INTEGER: u32 = 19;
    pub const PIXMAP: u32 = 20;
    pub const POINT: u32 = 21;
    pub const RECTANGLE: u32 = 22;
    pub const RESOURCE_MANAGER: u32 = 23;
    pub const RGB_COLOR_MAP: u32 = 24;
    pub const RGB_BEST_MAP: u32 = 25;
    pub const RGB_BLUE_MAP: u32 = 26;
    pub const RGB_DEFAULT_MAP: u32 = 27;
    pub const RGB_GRAY_MAP: u32 = 28;
    pub const RGB_GREEN_MAP: u32 = 29;
    pub const RGB_RED_MAP: u32 = 30;
    pub const STRING: u32 = 31;
    pub const VISUALID: u32 = 32;
    pub const WINDOW: u32 = 33;
    pub const WM_COMMAND: u32 = 34;
    pub const WM_HINTS: u32 = 35;
    pub const WM_CLIENT_MACHINE: u32 = 36;
    pub const WM_ICON_NAME: u32 = 37;
    pub const WM_ICON_SIZE: u32 = 38;
    pub const WM_NAME: u32 = 39;
    pub const WM_NORMAL_HINTS: u32 = 40;
    pub const WM_SIZE_HINTS: u32 = 41;
    pub const WM_ZOOM_HINTS: u32 = 42;
    pub const MIN_SPACE: u32 = 43;
    pub const NORM_SPACE: u32 = 44;
    pub const MAX_SPACE: u32 = 45;
    pub const END_SPACE: u32 = 46;
    pub const SUPERSCRIPT_X: u32 = 47;
    pub const SUPERSCRIPT_Y: u32 = 48;
    pub const SUBSCRIPT_X: u32 = 49;
    pub const SUBSCRIPT_Y: u32 = 50;
    pub const UNDERLINE_POSITION: u32 = 51;
    pub const UNDERLINE_THICKNESS: u32 = 52;
    pub const STRIKEOUT_ASCENT: u32 = 53;
    pub const STRIKEOUT_DESCENT: u32 = 54;
    pub const ITALIC_ANGLE: u32 = 55;
    pub const X_HEIGHT: u32 = 56;
    pub const QUAD_WIDTH: u32 = 57;
    pub const WEIGHT: u32 = 58;
    pub const POINT_SIZE: u32 = 59;
    pub const RESOLUTION: u32 = 60;
    pub const COPYRIGHT: u32 = 61;
    pub const NOTICE: u32 = 62;
    pub const FONT_NAME: u32 = 63;
    pub const FAMILY_NAME: u32 = 64;
    pub const FULL_NAME: u32 = 65;
    pub const CAP_HEIGHT: u32 = 66;
    pub const WM_CLASS: u32 = 67;
    pub const WM_TRANSIENT_FOR: u32 = 68;

    /// First user-defined atom ID
    pub const FIRST_USER_ATOM: u32 = 69;

    pub fn new(id: u32) -> (r: Self)
        ensures
            r == Atom(id),
    {
        Atom(id)
    }

    pub fn get(&self) -> (r: u32)
        ensures
            r == self.0,
    {
        self.0
    }
}

/// Visual ID
#[derive(Debug, Clone, Copy, PartialEq, Eq, Hash, Structural)]
pub struct VisualID(pub u32);

impl VisualID {
    pub fn new(id: u32) -> (r: Self)
        ensures
            r == VisualID(id),
    {
        VisualID(id)
    }

    pub fn get(&self) -> (r: u32)
        ensures
            r == self.0,
    {
        self.0
    }
}

/// Timestamp (milliseconds)
#[derive(Debug, Clone, Copy, PartialEq, Eq, PartialOrd, Ord, Structural)]
pub struct Timestamp(pub u32);

impl Timestamp {
    /// The special time value meaning "now".
    pub fn current_time() -> (r: Self)
        ensures
            r == Timestamp(0),
    {
        Timestamp(0)
    }

    pub fn new(ms: u32) -> (r: Self)
        ensures
            r == Timestamp(ms),
    {
        Timestamp(ms)
    }

    pub fn get(&self) -> (r: u32)
        ensures
            r == self.0,
    {
        self.0
    }
}

/// Keycode
#[derive(Debug, Clone, Copy, PartialEq, Eq, Hash, Structural)]
pub struct Keycode(pub u8);

impl Keycode {
    pub fn new(code: u8) -> (r: Self)
        ensures
            r == Keycode(code),
    {
        Keycode(code)
    }

    pub fn get(&self) -> (r: u8)
        ensures
            r == self.0,
    {
        self.0
    }
}

/// Button (mouse button)
#[derive(Debug, Clone, Copy, PartialEq, Eq, Hash, Structural)]
pub struct Button(pub u8);

impl Button {
    pub const BUTTON1: u8 = 1;
    pub const BUTTON2: u8 = 2;
    pub const BUTTON3: u8 = 3;
    pub const BUTTON4: u8 = 4;
    pub const BUTTON5: u8 = 5;

    pub fn new(button: u8) -> (r: Self)
        ensures
            r == Button(button),
    {
        Button(button)
    }

    pub fn get(&self) -> (r: u8)
        ensures
            r == self.0,
    {
        self.0
    }
}

/// Point (x, y coordinate)
#[derive(Debug, Clone, Copy, PartialEq, Eq, Structural)]
pub struct Point {
    pub x: i16,
    pub y: i16,
}

impl Point {
    pub fn new(x: i16, y: i16) -> (r: Self)
        ensures
            r == (Point { x, y }),
    {
        Point { x, y }
    }
}

/// Rectangle
#[derive(Debug, Clone, Copy, PartialEq, Eq, Structural)]
pub struct Rectangle {
    pub x: i16,
    pub y: i16,
    pub width: u16,
    pub height: u16,
}

impl Rectangle {
    pub fn new(x: i16, y: i16, width: u16, height: u16) -> (r: Self)
        ensures
            r == (Rectangle { x, y, width, height }),
    {
        Rectangle { x, y, width, height }
    }
}

/// Segment (for drawing line segments)
#[derive(Debug, Clone, Copy, PartialEq, Eq, Structural)]
pub struct Segment {
    pub x1: i16,
    pub y1: i16,
    pub x2: i16,
    pub y2: i16,
}

/// Arc (for drawing arcs and ellipses); angles are in 1/64 degrees.
#[derive(Debug, Clone, Copy, PartialEq, Eq, Structural)]
pub struct Arc {
    pub x: i16,
    pub y: i16,
    pub width: u16,
    pub height: u16,
    pub angle1: i16,
    pub angle2: i16,
}

/// Window class
#[derive(Debug, Clone, Copy, PartialEq, Eq, Structural)]
pub enum WindowClass {
    CopyFromParent,
    InputOutput,
    InputOnly,
}

impl WindowClass {
    /// The class's code on the wire.
    pub open spec fn spec_code(self) -> u16 {
        match self {
            WindowClass::CopyFromParent => 0,
            WindowClass::InputOutput => 1,
            WindowClass::InputOnly => 2,
        }
    }

    /// The class with wire code `value`, if there is one.
    pub open spec fn spec_from_u16(value: u16) -> Option<WindowClass> {
        if value == 0 {
            Some(WindowClass::CopyFromParent)
        } else if value == 1 {
            Some(WindowClass::InputOutput)
        } else if value == 2 {
            Some(WindowClass::InputOnly)
        } else {
            None
        }
    }

    pub fn from_u16(value: u16) -> (r: Option<Self>)
        ensures
            r == Self::spec_from_u16(value),
    {
        match value {
            0 => Some(WindowClass::CopyFromParent),
            1 => Some(WindowClass::InputOutput),
            2 => Some(WindowClass::InputOnly),
            _ => None,
        }
    }

    pub fn code(&self) -> (r: u16)
        ensures
            r == self.spec_code(),
    {
        match self {
            WindowClass::CopyFromParent => 0,
            WindowClass::InputOutput => 1,
            WindowClass::InputOnly => 2,
        }
    }
}

/// Backing store hint
#[derive(Debug, Clone, Copy, PartialEq, Eq, Structural)]
pub enum BackingStore {
    NotUseful,
    WhenMapped,
    Always,
}

impl BackingStore {
    pub open spec fn spec_code(self) -> u8 {
        match self {
            BackingStore::NotUseful => 0,
            BackingStore::WhenMapped => 1,
            BackingStore::Always => 2,
        }
    }

    pub fn code(&self) -> (r: u8)
        ensures
            r == self.spec_code(),
    {
        match self {
            BackingStore::NotUseful => 0,
            BackingStore::WhenMapped => 1,
            BackingStore::Always => 2,
        }
    }
}

/// Map state
#[derive(Debug, Clone, Copy, PartialEq, Eq, Structural)]
pub enum MapState {
    Unmapped,
    Unviewable,
    Viewable,
}

impl MapState {
    pub open spec fn spec_code(self) -> u8 {
        match self {
            MapState::Unmapped => 0,
            MapState::Unviewable => 1,
            MapState::Viewable => 2,
        }
    }

    pub fn code(&self) -> (r: u8)
        ensures
            r == self.spec_code(),
    {
        match self {
            MapState::Unmapped => 0,
            MapState::Unviewable => 1,
            MapState::Viewable => 2,
        }
    }
}

/// Stack mode for ConfigureWindow
#[derive(Debug, Clone, Copy, PartialEq, Eq, Structural)]
pub enum StackMode {
    Above,
    Below,
    TopIf,
    BottomIf,
    Opposite,
}

/// GC function
#[derive(Debug, Clone, Copy, PartialEq, Eq, Structural)]
pub enum GCFunction {
    Clear,
    And,
    AndReverse,
    Copy,
    AndInverted,
    NoOp,
    Xor,
    Or,
    Nor,
    Equiv,
    Invert,
    OrReverse,
    CopyInverted,
    OrInverted,
    Nand,
    SetAll,
}

/// Line style
#[derive(Debug, Clone, Copy, PartialEq, Eq, Structural)]
pub enum LineStyle {
    Solid,
    OnOffDash,
    DoubleDash,
}

/// Cap style
#[derive(Debug, Clone, Copy, PartialEq, Eq, Structural)]
pub enum CapStyle {
    NotLast,
    Butt,
    Round,
    Projecting,
}

/// Join style
#[derive(Debug, Clone, Copy, PartialEq, Eq, Structural)]
pub enum JoinStyle {
    Miter,
    Round,
    Bevel,
}

/// Fill style
#[derive(Debug, Clone, Copy, PartialEq, Eq, Structural)]
pub enum FillStyle {
    Solid,
    Tiled,
    Stippled,
    OpaqueStippled,
}

/// Fill rule
#[derive(Debug, Clone, Copy, PartialEq, Eq, Structural)]
pub enum FillRule {
    EvenOdd,
    Winding,
}

/// Arc mode
#[derive(Debug, Clone, Copy, PartialEq, Eq, Structural)]
pub enum ArcMode {
    Chord,
    PieSlice,
}

/// Image format
#[derive(Debug, Clone, Copy, PartialEq, Eq, Structural)]
pub enum ImageFormat {
    Bitmap,
    XYPixmap,
    ZPixmap,
}

/// Byte order
#[derive(Debug, Clone, Copy, PartialEq, Eq, Structural)]
pub enum ByteOrder {
    LSBFirst,
    MSBFirst,
}

/// Bytes of a `u16` in the machine's native order (`u16::to_ne_bytes`).
/// The standard library documents the result as the value's little-endian or
/// big-endian bytes, by the target's endianness; which of the two is left open here.
#[verifier::external_body]
fn u16_native_bytes(v: u16) -> (r: [u8; 2])
    ensures
        (r[0] == (v % 256) as u8 && r[1] == (v / 256) as u8) || (r[0] == (v / 256) as u8 && r[1]
            == (v % 256) as u8),
{
    v.to_ne_bytes()
}

impl ByteOrder {
    /// The wire code of the byte order in the connection setup and in replies.
    pub open spec fn spec_code(self) -> u8 {
        match self {
            ByteOrder::LSBFirst => 0,
            ByteOrder::MSBFirst => 1,
        }
    }

    pub fn code(&self) -> (r: u8)
        ensures
            r == self.spec_code(),
    {
        match self {
            ByteOrder::LSBFirst => 0,
            ByteOrder::MSBFirst => 1,
        }
    }

    /// The byte order whose encoding of the number 1 is `bytes`: `LSBFirst` exactly
    /// when the 1 is in the first byte.
    pub fn order_of_native_bytes(bytes: [u8; 2]) -> (r: Self)
        ensures
            r == (if bytes[0] == 1 {
                ByteOrder::LSBFirst
            } else {
                ByteOrder::MSBFirst
            }),
    {
        if bytes[0] == 1 {
            ByteOrder::LSBFirst
        } else {
            ByteOrder::MSBFirst
        }
    }

    /// The byte order of the machine this runs on: the order of the machine's own
    /// encoding of 1 (see `order_of_native_bytes`).
    pub fn native() -> (r: Self) {
        Self::order_of_native_bytes(u16_native_bytes(1))
    }
}

} // verus!

