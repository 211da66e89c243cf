//! Backend trait definition
//!
//! This module defines the trait that all display backends must implement.
//! Backends translate X11 operations to native window system operations.
use vstd::prelude::*;
use crate::protocol::types::{
    Arc, CapStyle, FillRule, FillStyle, GCFunction, JoinStyle, LineStyle, Point, Rectangle,
    StackMode, VisualID, WindowClass,
};

verus! {

/// Why a backend operation failed.
#[derive(Debug, Clone)]
pub struct BackendError {
    pub message: String,
}

impl BackendError {
    /// An error with the given message.
    pub fn new(message: String) -> (r: Self)
        ensures
            r.message@ == message@,
    {
        BackendError { message }
    }
}

/// Result type for backend operations
pub type BackendResult<T> = Result<T, BackendError>;

/// Backend-specific window handle
#[derive(Debug, Clone, Copy, PartialEq, Eq, Hash, Structural)]
pub struct BackendWindow(pub usize);

/// Backend-specific cursor handle
#[derive(Debug, Clone, Copy, PartialEq, Eq, Hash, Structural)]
pub struct BackendCursor(pub usize);

impl BackendCursor {
    /// No cursor (use parent's cursor)
    pub fn none() -> (r: Self)
        ensures
            r.0 == 0,
    {
        BackendCursor(0)
    }
}

/// Standard X11 cursor shapes (from cursor font glyph indices)
#[derive(Debug, Clone, Copy, PartialEq, Eq, Structural)]
pub enum StandardCursor {
    XCursor,
    Arrow,
    BasedArrowDown,
    BasedArrowUp,
    Boat,
    Bogosity,
    BottomLeftCorner,
    BottomRightCorner,
    BottomSide,
    BottomTee,
    BoxSpiral,
    CenterPtr,
    Circle,
    Clock,
    CoffeeMug,
    Cross,
    CrossReverse,
    Crosshair,
    DiamondCross,
    Dot,
    Dotbox,
    DoubleArrow,
    DraftLarge,
    DraftSmall,
    DrapedBox,
    Exchange,
    Fleur,
    Gobbler,
    Gumby,
    Hand1,
    Hand2,
    Heart,
    Icon,
    IronCross,
    LeftPtr,
    LeftSide,
    LeftTee,
    Leftbutton,
    LlAngle,
    LrAngle,
    Man,
    Middlebutton,
    Mouse,
    Pencil,
    Pirate,
    Plus,
    QuestionArrow,
    RightPtr,
    RightSide,
    RightTee,
    Rightbutton,
    RtlLogo,
    Sailboat,
    SbDownArrow,
    SbHDoubleArrow,
    SbLeftArrow,
    SbRightArrow,
    SbUpArrow,
    SbVDoubleArrow,
    Shuttle,
    Sizing,
    Spider,
    Spraycan,
    Star,
    Target,
    Tcross,
    TopLeftArrow,
    TopLeftCorner,
    TopRightCorner,
    TopSide,
    TopTee,
    Trek,
    UlAngle,
    Umbrella,
    UrAngle,
    Watch,
    Xterm,
}

impl StandardCursor {
    /// The shape's glyph index in the cursor font.
    pub open spec fn spec_glyph(self) -> u16 {
        match self {
            StandardCursor::XCursor => 0,
            StandardCursor::Arrow => 2,
            StandardCursor::BasedArrowDown => 4,
            StandardCursor::BasedArrowUp => 6,
            StandardCursor::Boat => 8,
            StandardCursor::Bogosity => 10,
            StandardCursor::BottomLeftCorner => 12,
            StandardCursor::BottomRightCorner => 14,
            StandardCursor::BottomSide => 16,
            StandardCursor::BottomTee => 18,
            StandardCursor::BoxSpiral => 20,
            StandardCursor::CenterPtr => 22,
            StandardCursor::Circle => 24,
            StandardCursor::Clock => 26,
            StandardCursor::CoffeeMug => 28,
            StandardCursor::Cross => 30,
            StandardCursor::CrossReverse => 32,
            StandardCursor::Crosshair => 34,
            StandardCursor::DiamondCross => 36,
            StandardCursor::Dot => 38,
            StandardCursor::Dotbox => 40,
            StandardCursor::DoubleArrow => 42,
            StandardCursor::DraftLarge => 44,
            StandardCursor::DraftSmall => 46,
            StandardCursor::DrapedBox => 48,
            StandardCursor::Exchange => 50,
            StandardCursor::Fleur => 52,
            StandardCursor::Gobbler => 54,
            StandardCursor::Gumby => 56,
            StandardCursor::Hand1 => 58,
            StandardCursor::Hand2 => 60,
            StandardCursor::Heart => 62,
            StandardCursor::Icon => 64,
            StandardCursor::IronCross => 66,
            StandardCursor::LeftPtr => 68,
            StandardCursor::LeftSide => 70,
            StandardCursor::LeftTee => 72,
            StandardCursor::Leftbutton => 74,
            StandardCursor::LlAngle => 76,
            StandardCursor::LrAngle => 78,
            StandardCursor::Man => 80,
            StandardCursor::Middlebutton => 82,
            StandardCursor::Mouse => 84,
            StandardCursor::Pencil => 86,
            StandardCursor::Pirate => 88,
            StandardCursor::Plus => 90,
            StandardCursor::QuestionArrow => 92,
            StandardCursor::RightPtr => 94,
            StandardCursor::RightSide => 96,
            StandardCursor::RightTee => 98,
            StandardCursor::Rightbutton => 100,
            StandardCursor::RtlLogo => 102,
            StandardCursor::Sailboat => 104,
            StandardCursor::SbDownArrow => 106,
            StandardCursor::SbHDoubleArrow => 108,
            StandardCursor::SbLeftArrow => 110,
            StandardCursor::SbRightArrow => 112,
            StandardCursor::SbUpArrow => 114,
            StandardCursor::SbVDoubleArrow => 116,
            StandardCursor::Shuttle => 118,
            StandardCursor::Sizing => 120,
            StandardCursor::Spider => 122,
            StandardCursor::Spraycan => 124,
            StandardCursor::Star => 126,
            StandardCursor::Target => 128,
            StandardCursor::Tcross => 130,
            StandardCursor::TopLeftArrow => 132,
            StandardCursor::TopLeftCorner => 134,
            StandardCursor::TopRightCorner => 136,
            StandardCursor::TopSide => 138,
            StandardCursor::TopTee => 140,
            StandardCursor::Trek => 142,
            StandardCursor::UlAngle => 144,
            StandardCursor::Umbrella => 146,
            StandardCursor::UrAngle => 148,
            StandardCursor::Watch => 150,
            StandardCursor::Xterm => 152,
        }
    }

    /// The shapes that a glyph index is recognised as.
    pub open spec fn spec_from_glyph(glyph: u16) -> Option<StandardCursor> {
        match glyph {
            0 => Some(StandardCursor::XCursor),
            2 => Some(StandardCursor::Arrow),
            34 => Some(StandardCursor::Crosshair),
            52 => Some(StandardCursor::Fleur),
            58 => Some(StandardCursor::Hand1),
            60 => Some(StandardCursor::Hand2),
            68 => Some(StandardCursor::LeftPtr),
            150 => Some(StandardCursor::Watch),
            152 => Some(StandardCursor::Xterm),
            _ => None,
        }
    }

    /// Convert a glyph index from the cursor font to a StandardCursor
    pub fn from_glyph(glyph: u16) -> (r: Option<StandardCursor>)
        ensures
            r == Self::spec_from_glyph(glyph),
            r matches Some(c) ==> c.spec_glyph() == glyph,
    {
        match glyph {
            0 => Some(StandardCursor::XCursor),
            2 => Some(StandardCursor::Arrow),
            34 => Some(StandardCursor::Crosshair),
            52 => Some(StandardCursor::Fleur),
            58 => Some(StandardCursor::Hand1),
            60 => Some(StandardCursor::Hand2),
            68 => Some(StandardCursor::LeftPtr),
            150 => Some(StandardCursor::Watch),
            152 => Some(StandardCursor::Xterm),
            // Add more as needed
            _ => None,
        }
    }
}

/// Backend-specific drawable handle
#[derive(Debug, Clone, Copy, PartialEq, Eq, Hash, Structural)]
pub enum BackendDrawable {
    Window(BackendWindow),
    Pixmap(usize),
}

/// Backend-specific graphics context
#[derive(Debug, Clone, Copy, PartialEq, Eq, Structural)]
pub struct BackendGC {
    pub function: GCFunction,
    pub foreground: u32,
    pub background: u32,
    pub line_width: u16,
    pub line_style: LineStyle,
    pub cap_style: CapStyle,
    pub join_style: JoinStyle,
    pub fill_style: FillStyle,
    pub fill_rule: FillRule,
}

impl Default for BackendGC {
    /// Copy function, black on white, thin solid lines with butt caps and miter
    /// joins, solid even-odd fill.
    fn default() -> (r: Self)
        ensures
            r == (BackendGC {
                function: GCFunction::Copy,
                foreground: 0,
                background: 0xffffff,
                line_width: 0,
                line_style: LineStyle::Solid,
                cap_style: CapStyle::Butt,
                join_style: JoinStyle::Miter,
                fill_style: FillStyle::Solid,
                fill_rule: FillRule::EvenOdd,
            }),
    {
        BackendGC {
            function: GCFunction::Copy,
            foreground: 0,
            background: 0xffffff,
            line_width: 0,
            line_style: LineStyle::Solid,
            cap_style: CapStyle::Butt,
            join_style: JoinStyle::Miter,
            fill_style: FillStyle::Solid,
            fill_rule: FillRule::EvenOdd,
        }
    }
}

/// Window creation parameters
#[derive(Debug, Clone)]
pub struct WindowParams {
    pub parent: Option<BackendWindow>,
    pub x: i16,
    pub y: i16,
    pub width: u16,
    pub height: u16,
    pub border_width: u16,
    pub class: WindowClass,
    pub background_pixel: Option<u32>,
    pub event_mask: u32,
}

/// Window configuration
#[derive(Debug, Clone)]
pub struct WindowConfig {
    pub x: Option<i16>,
    pub y: Option<i16>,
    pub width: Option<u16>,
    pub height: Option<u16>,
    pub border_width: Option<u16>,
    pub stack_mode: Option<StackMode>,
}

/// Screen information
#[derive(Debug, Clone)]
pub struct ScreenInfo {
    pub width: u16,
    pub height: u16,
    pub width_mm: u16,
    pub height_mm: u16,
    pub root_visual: VisualID,
    pub root_depth: u8,
    pub white_pixel: u32,
    pub black_pixel: u32,
}

/// Visual information
#[derive(Debug, Clone)]
pub struct VisualInfo {
    pub visual_id: VisualID,
    pub class: u8,
    pub bits_per_rgb: u8,
    pub colormap_entries: u16,
    pub red_mask: u32,
    pub green_mask: u32,
    pub blue_mask: u32,
}

/// A trapezoid for RENDER extension (fixed-point 16.16 format)
#[derive(Debug, Clone, Copy)]
pub struct RenderTrapezoid {
    pub top: i32,
    pub bottom: i32,
    pub left_x1: i32,
    pub left_y1: i32,
    pub left_x2: i32,
    pub left_y2: i32,
    pub right_x1: i32,
    pub right_y1: i32,
    pub right_x2: i32,
    pub right_y2: i32,
}

/// Backend events
#[derive(Debug, Clone)]
pub enum BackendEvent {
    /// Window needs to be redrawn
    Expose { window: BackendWindow, x: u16, y: u16, width: u16, height: u16 },
    /// Window was resized by native window manager
    Configure { window: BackendWindow, x: i16, y: i16, width: u16, height: u16 },
    /// Key press
    KeyPress { window: BackendWindow, keycode: u8, state: u16, time: u32, x: i16, y: i16 },
    /// Key release
    KeyRelease { window: BackendWindow, keycode: u8, state: u16, time: u32, x: i16, y: i16 },
    /// Button press
    ButtonPress { window: BackendWindow, button: u8, state: u16, time: u32, x: i16, y: i16 },
    /// Button release
    ButtonRelease { window: BackendWindow, button: u8, state: u16, time: u32, x: i16, y: i16 },
    /// Mouse motion
    MotionNotify { window: BackendWindow, state: u16, time: u32, x: i16, y: i16 },
    /// Window gained keyboard focus
    FocusIn { window: BackendWindow },
    /// Window lost keyboard focus
    FocusOut { window: BackendWindow },
    /// Window destroyed by user/WM
    DestroyNotify { window: BackendWindow },
    /// Window was mapped (shown)
    MapNotify { window: BackendWindow },
    /// Window was unmapped (hidden)
    UnmapNotify { window: BackendWindow },
    /// Pointer entered window
    EnterNotify { window: BackendWindow, x: i16, y: i16, time: u32 },
    /// Pointer left window
    LeaveNotify { window: BackendWindow, x: i16, y: i16, time: u32 },
}

/// The absolute value of `a`.
pub open spec fn abs(a: int) -> int {
    if a >= 0 {
        a
    } else {
        -a
    }
}

/// Integer division as Rust computes it: the quotient rounded toward zero.
pub open spec fn div_toward_zero(a: int, b: int) -> int {
    if (a >= 0) == (b > 0) {
        abs(a) / abs(b)
    } else {
        -(abs(a) / abs(b))
    }
}

/// Dividing a non-negative number by a negative one gives the negated quotient by
/// its absolute value.
proof fn lemma_div_by_negative(a: int, d: int)
    by (nonlinear_arith)
    requires
        a >= 0,
        d < 0,
    ensures
        a / d == -(a / (-d)),
{
}

/// Rust's quotient, written with the non-negative dividend that Verus divides.
proof fn lemma_toward_zero(a: int, d: int)
    requires
        d != 0,
    ensures
        (if a >= 0 {
            a / d
        } else {
            -((-a) / d)
        }) == div_toward_zero(a, d),
{
    if d < 0 {
        if a >= 0 {
            lemma_div_by_negative(a, d);
        } else {
            lemma_div_by_negative(-a, d);
        }
    }
}

/// The offset of the interpolated point from `x1`, as the 64-bit quotient cut to 32 bits.
pub open spec fn interpolation_step(x1: i32, y1: i32, x2: i32, y2: i32, y: i32) -> i32 {
    div_toward_zero((x2 - x1) * (y - y1), y2 - y1) as i32
}

/// The X coordinate at height `y` of the line through `(x1, y1)` and `(x2, y2)`;
/// `x1` for a horizontal line.
pub open spec fn spec_interpolate_x(x1: i32, y1: i32, x2: i32, y2: i32, y: i32) -> int {
    if y1 == y2 {
        x1 as int
    } else {
        x1 + interpolation_step(x1, y1, x2, y2, y)
    }
}

/// The differences and the sum that `interpolate_x` computes fit in 32 bits.
pub open spec fn interpolation_fits(x1: i32, y1: i32, x2: i32, y2: i32, y: i32) -> bool {
    y1 != y2 ==> {
        &&& i32::MIN <= y2 - y1 <= i32::MAX
        &&& i32::MIN <= x2 - x1 <= i32::MAX
        &&& i32::MIN <= y - y1 <= i32::MAX
        &&& i32::MIN <= x1 + interpolation_step(x1, y1, x2, y2, y) <= i32::MAX
    }
}

/// Helper function to interpolate X coordinate along a line at a given Y
/// All values are in fixed-point 16.16 format
pub fn interpolate_x(x1: i32, y1: i32, x2: i32, y2: i32, y: i32) -> (r: i32)
    requires
        interpolation_fits(x1, y1, x2, y2, y),
    ensures
        r == spec_interpolate_x(x1, y1, x2, y2, y),
{
    if y1 == y2 {
        return x1;
    }
    // Linear interpolation: x = x1 + (x2 - x1) * (y - y1) / (y2 - y1)
    let dy = y2 - y1;
    let dx = x2 - x1;
    let t = y - y1;
    assert(-0x4000_0000_0000_0000 <= (dx as int) * (t as int) <= 0x4000_0000_0000_0000)
        by (nonlinear_arith)
        requires
            i32::MIN <= dx <= i32::MAX,
            i32::MIN <= t <= i32::MAX,
    ;
    let product: i64 = dx as i64 * t as i64;
    let q: i64 = product / dy as i64;
    proof {
        lemma_toward_zero(product as int, dy as int);
    }
    assert(q == div_toward_zero((x2 - x1) * (y - y1), y2 - y1));
    x1 + q as i32
}

/// The interpolated line passes through both of the points that define it.
pub proof fn lemma_interpolate_endpoints(x1: i32, y1: i32, x2: i32, y2: i32)
    requires
        interpolation_fits(x1, y1, x2, y2, y1),
        interpolation_fits(x1, y1, x2, y2, y2),
    ensures
        spec_interpolate_x(x1, y1, x2, y2, y1) == x1,
        y1 != y2 ==> spec_interpolate_x(x1, y1, x2, y2, y2) == x2,
{
    if y1 != y2 {
        let dx: int = x2 - x1;
        let dy: int = y2 - y1;
        assert(abs(dx * dy) == abs(dx) * abs(dy)) by (nonlinear_arith);
        assert(abs(dy) > 0);
        vstd::arithmetic::div_mod::lemma_div_by_multiple(abs(dx), abs(dy));
        assert(abs(dx * dy) / abs(dy) == abs(dx));
        if dx > 0 {
            assert((dx * dy >= 0) == (dy > 0)) by (nonlinear_arith)
                requires
                    dx > 0,
                    dy != 0,
            ;
        } else if dx < 0 {
            assert((dx * dy >= 0) == (dy < 0)) by (nonlinear_arith)
                requires
                    dx < 0,
                    dy != 0,
            ;
        } else {
            assert(dx * dy == 0) by (nonlinear_arith)
                requires
                    dx == 0,
            ;
        }
        assert(div_toward_zero(dx * dy, dy) == dx);
        assert(div_toward_zero(0, dy) == 0);
    }
}

/// Between the heights of the two points, the interpolated X coordinate lies between
/// their X coordinates.
pub proof fn lemma_interpolate_between(x1: i32, y1: i32, x2: i32, y2: i32, y: i32)
    requires
        interpolation_fits(x1, y1, x2, y2, y),
        (y1 <= y <= y2) || (y2 <= y <= y1),
    ensures
        (x1 <= spec_interpolate_x(x1, y1, x2, y2, y) <= x2) || (x2 <= spec_interpolate_x(
            x1,
            y1,
            x2,
            y2,
            y,
        ) <= x1),
{
    if y1 != y2 {
        let dx: int = x2 - x1;
        let dy: int = y2 - y1;
        let t: int = y - y1;
        let a = abs(dx);
        let b = abs(t);
        let c = abs(dy);
        assert(abs(dx * t) == a * b) by (nonlinear_arith)
            requires
                a == (if dx >= 0 { dx } else { -dx }),
                b == (if t >= 0 { t } else { -t }),
                abs(dx * t) == (if dx * t >= 0 { dx * t } else { -(dx * t) }),
        ;
        assert(0 <= b <= c && c > 0);
        assert(a * b <= a * c) by (nonlinear_arith)
            requires
                0 <= b <= c,
                a >= 0,
        ;
        vstd::arithmetic::div_mod::lemma_div_is_ordered(a * b, a * c, c);
        vstd::arithmetic::div_mod::lemma_div_by_multiple(a, c);
        assert(0 <= a * b) by (nonlinear_arith)
            requires
                a >= 0,
                b >= 0,
        ;
        vstd::arithmetic::div_mod::lemma_div_pos_is_pos(a * b, c);
        let q = (a * b) / c;
        assert(0 <= q <= a);
        if t == 0 || dx == 0 {
            assert(dx * t == 0) by (nonlinear_arith)
                requires
                    t == 0 || dx == 0,
            ;
            assert(a * b == 0);
            assert(q == 0);
        } else if dx > 0 {
            assert((dx * t >= 0) == (dy > 0)) by (nonlinear_arith)
                requires
                    dx > 0,
                    t != 0,
                    (0 < t && 0 < dy) || (t < 0 && dy < 0),
            ;
        } else {
            assert((dx * t >= 0) == (dy < 0)) by (nonlinear_arith)
                requires
                    dx < 0,
                    t != 0,
                    (0 < t && 0 < dy) || (t < 0 && dy < 0),
            ;
        }
        assert(div_toward_zero(dx * t, dy) == q || div_toward_zero(dx * t, dy) == -q);
    }
}

/// The integer part of a 16.16 fixed-point value, cut to 16 bits.
pub open spec fn fixed_int(v: i32) -> i16 {
    (v >> 16u32) as i16
}

/// The four edge interpolations of a trapezoid fit in 32 bits.
pub open spec fn trapezoid_fits(t: RenderTrapezoid) -> bool {
    &&& interpolation_fits(t.left_x1, t.left_y1, t.left_x2, t.left_y2, t.top)
    &&& interpolation_fits(t.left_x1, t.left_y1, t.left_x2, t.left_y2, t.bottom)
    &&& interpolation_fits(t.right_x1, t.right_y1, t.right_x2, t.right_y2, t.top)
    &&& interpolation_fits(t.right_x1, t.right_y1, t.right_x2, t.right_y2, t.bottom)
}

/// The polygon a trapezoid is drawn as: its left and right edges at its top, then
/// its right and left edges at its bottom, in whole pixels.
pub open spec fn trapezoid_points(t: RenderTrapezoid) -> Seq<Point> {
    let top = fixed_int(t.top);
    let bottom = fixed_int(t.bottom);
    let left_top = spec_interpolate_x(t.left_x1, t.left_y1, t.left_x2, t.left_y2, t.top) as i32;
    let left_bottom = spec_interpolate_x(t.left_x1, t.left_y1, t.left_x2, t.left_y2, t.bottom) as i32;
    let right_top = spec_interpolate_x(t.right_x1, t.right_y1, t.right_x2, t.right_y2, t.top) as i32;
    let right_bottom = spec_interpolate_x(t.right_x1, t.right_y1, t.right_x2, t.right_y2, t.bottom)
        as i32;
    seq![
        Point { x: fixed_int(left_top), y: top },
        Point { x: fixed_int(right_top), y: top },
        Point { x: fixed_int(right_bottom), y: bottom },
        Point { x: fixed_int(left_bottom), y: bottom },
    ]
}

/// The polygon that `fill_trapezoids` fills for one trapezoid.
pub fn trapezoid_polygon(trap: &RenderTrapezoid) -> (r: Vec<Point>)
    requires
        trapezoid_fits(*trap),
    ensures
        r@ == trapezoid_points(*trap),
{
    // Convert fixed-point to integer (shift right 16 bits)
    let top = (trap.top >> 16u32) as i16;
    let bottom = (trap.bottom >> 16u32) as i16;

    // Calculate left edge X at top and bottom
    let left_x_top = interpolate_x(trap.left_x1, trap.left_y1, trap.left_x2, trap.left_y2, trap.top);
    let left_x_bottom = interpolate_x(
        trap.left_x1,
        trap.left_y1,
        trap.left_x2,
        trap.left_y2,
        trap.bottom,
    );

    // Calculate right edge X at top and bottom
    let right_x_top = interpolate_x(
        trap.right_x1,
        trap.right_y1,
        trap.right_x2,
        trap.right_y2,
        trap.top,
    );
    let right_x_bottom = interpolate_x(
        trap.right_x1,
        trap.right_y1,
        trap.right_x2,
        trap.right_y2,
        trap.bottom,
    );

    // Convert to integer coordinates
    let x1 = (left_x_top >> 16u32) as i16;
    let x2 = (right_x_top >> 16u32) as i16;
    let x3 = (right_x_bottom >> 16u32) as i16;
    let x4 = (left_x_bottom >> 16u32) as i16;

    // Create a polygon from the trapezoid
    let points = vec![
        Point { x: x1, y: top },
        Point { x: x2, y: top },
        Point { x: x3, y: bottom },
        Point { x: x4, y: bottom },
    ];
    assert(points@ =~= trapezoid_points(*trap));
    points
}

/// The graphics context that trapezoids are filled with: the default context (see
/// `BackendGC::default`) with `color` as its foreground.
pub fn trapezoid_gc(color: u32) -> (r: BackendGC)
    ensures
        r == (BackendGC {
            function: GCFunction::Copy,
            foreground: color,
            background: 0xffffff,
            line_width: 0,
            line_style: LineStyle::Solid,
            cap_style: CapStyle::Butt,
            join_style: JoinStyle::Miter,
            fill_style: FillStyle::Solid,
            fill_rule: FillRule::EvenOdd,
        }),
{
    let mut gc = BackendGC::default();
    gc.foreground = color;
    gc
}

/// The main backend trait
///
/// All display backends must implement this trait. The trait is designed to be
/// minimal and close to X11 operations, allowing backends to be efficient while
/// still providing the necessary functionality.
pub trait Backend: Send {
    /// Initialize the backend
    fn init(&mut self) -> BackendResult<()>;

    /// Get screen information
    fn get_screen_info(&self) -> BackendResult<ScreenInfo>;

    /// Get available visuals
    fn get_visuals(&self) -> BackendResult<Vec<VisualInfo>>;

    // Window operations
    /// Create a new window
    fn create_window(&mut self, params: WindowParams) -> BackendResult<BackendWindow>;

    /// Destroy a window
    fn destroy_window(&mut self, window: BackendWindow) -> BackendResult<()>;

    /// Map (show) a window
    fn map_window(&mut self, window: BackendWindow) -> BackendResult<()>;

    /// Unmap (hide) a window
    fn unmap_window(&mut self, window: BackendWindow) -> BackendResult<()>;

    /// Configure window geometry and stacking
    fn configure_window(&mut self, window: BackendWindow, config: WindowConfig) -> BackendResult<
        (),
    >;

    /// Raise window to top
    fn raise_window(&mut self, window: BackendWindow) -> BackendResult<()>;

    /// Lower window to bottom
    fn lower_window(&mut self, window: BackendWindow) -> BackendResult<()>;

    /// Set window title
    fn set_window_title(&mut self, window: BackendWindow, title: &str) -> BackendResult<()>;

    // Drawing operations
    /// Clear an area of a window
    fn clear_area(
        &mut self,
        window: BackendWindow,
        x: i16,
        y: i16,
        width: u16,
        height: u16,
    ) -> BackendResult<()>;

    /// Draw a rectangle outline
    fn draw_rectangle(
        &mut self,
        drawable: BackendDrawable,
        gc: &BackendGC,
        x: i16,
        y: i16,
        width: u16,
        height: u16,
    ) -> BackendResult<()>;

    /// Draw filled rectangle
    fn fill_rectangle(
        &mut self,
        drawable: BackendDrawable,
        gc: &BackendGC,
        x: i16,
        y: i16,
        width: u16,
        height: u16,
    ) -> BackendResult<()>;

    /// Draw multiple rectangles
    fn draw_rectangles(
        &mut self,
        drawable: BackendDrawable,
        gc: &BackendGC,
        rectangles: &[Rectangle],
    ) -> (r: BackendResult<()>)
        default_ensures
            rectangles@.len() == 0 ==> r is Ok,
    {
        // Default implementation: draw one by one, stopping at the first failure
        let mut i: usize = 0;
        while i < rectangles.len()
            invariant
                i <= rectangles@.len(),
            decreases rectangles@.len() - i,
        {
            let rect = rectangles[i];
            self.draw_rectangle(drawable, gc, rect.x, rect.y, rect.width, rect.height)?;
            i = i + 1;
        }
        Ok(())
    }

    /// Draw multiple filled rectangles
    fn fill_rectangles(
        &mut self,
        drawable: BackendDrawable,
        gc: &BackendGC,
        rectangles: &[Rectangle],
    ) -> (r: BackendResult<()>)
        default_ensures
            rectangles@.len() == 0 ==> r is Ok,
    {
        // Default implementation: draw one by one, stopping at the first failure
        let mut i: usize = 0;
        while i < rectangles.len()
            invariant
                i <= rectangles@.len(),
            decreases rectangles@.len() - i,
        {
            let rect = rectangles[i];
            self.fill_rectangle(drawable, gc, rect.x, rect.y, rect.width, rect.height)?;
            i = i + 1;
        }
        Ok(())
    }

    /// Draw a line
    fn draw_line(
        &mut self,
        drawable: BackendDrawable,
        gc: &BackendGC,
        x1: i16,
        y1: i16,
        x2: i16,
        y2: i16,
    ) -> BackendResult<()>;

    /// Draw multiple connected lines
    fn draw_lines(&mut self, drawable: BackendDrawable, gc: &BackendGC, points: &[Point]) -> (r:
        BackendResult<()>)
        default_ensures
            points@.len() <= 1 ==> r is Ok,
    {
        // Default implementation: draw the segment from each point to the next
        let segments = points.len().saturating_sub(1);
        let mut i: usize = 0;
        while i < segments
            invariant
                i <= segments,
                segments == if points@.len() > 0 { points@.len() - 1 } else { 0 },
            decreases segments - i,
        {
            self.draw_line(drawable, gc, points[i].x, points[i].y, points[i + 1].x, points[i + 1].y)?;
            i = i + 1;
        }
        Ok(())
    }

    /// Draw line segments (each segment is independent: x1, y1, x2, y2)
    fn draw_segments(
        &mut self,
        drawable: BackendDrawable,
        gc: &BackendGC,
        segments: &[(i16, i16, i16, i16)],
    ) -> (r: BackendResult<()>)
        default_ensures
            segments@.len() == 0 ==> r is Ok,
    {
        // Default implementation: draw each segment
        let mut i: usize = 0;
        while i < segments.len()
            invariant
                i <= segments@.len(),
            decreases segments@.len() - i,
        {
            let (x1, y1, x2, y2) = segments[i];
            self.draw_line(drawable, gc, x1, y1, x2, y2)?;
            i = i + 1;
        }
        Ok(())
    }

    /// Draw points
    fn draw_points(&mut self, drawable: BackendDrawable, gc: &BackendGC, points: &[Point]) -> BackendResult<
        (),
    >;

    /// Draw text
    fn draw_text(
        &mut self,
        drawable: BackendDrawable,
        gc: &BackendGC,
        x: i16,
        y: i16,
        text: &str,
    ) -> BackendResult<()>;

    /// Draw arcs (elliptical arcs)
    fn draw_arcs(&mut self, drawable: BackendDrawable, gc: &BackendGC, arcs: &[Arc]) -> BackendResult<
        (),
    >;

    /// Fill arcs (pie slices)
    fn fill_arcs(&mut self, drawable: BackendDrawable, gc: &BackendGC, arcs: &[Arc]) -> BackendResult<
        (),
    >;

    /// Fill polygon
    fn fill_polygon(&mut self, drawable: BackendDrawable, gc: &BackendGC, points: &[Point]) -> BackendResult<
        (),
    >;

    /// Fill trapezoids (RENDER extension)
    ///
    /// Trapezoids are defined in fixed-point 16.16 format.
    /// The color is in ARGB format (0xAARRGGBB).
    fn fill_trapezoids(
        &mut self,
        drawable: BackendDrawable,
        color: u32,
        trapezoids: &[RenderTrapezoid],
    ) -> (r: BackendResult<()>)
        requires
            forall|i: int| 0 <= i < trapezoids@.len() ==> trapezoid_fits(#[trigger] trapezoids@[i]),
        default_ensures
            trapezoids@.len() == 0 ==> r is Ok,
    {
        // Default implementation: rasterize trapezoids as polygons, filled with the
        // color over the default graphics context
        let gc = trapezoid_gc(color);
        let mut i: usize = 0;
        while i < trapezoids.len()
            invariant
                i <= trapezoids@.len(),
                forall|j: int| 0 <= j < trapezoids@.len() ==> trapezoid_fits(#[trigger] trapezoids@[j]),
            decreases trapezoids@.len() - i,
        {
            let points = trapezoid_polygon(&trapezoids[i]);
            self.fill_polygon(drawable, &gc, points.as_slice())?;
            i = i + 1;
        }
        Ok(())
    }

    /// Copy area from one drawable to another
    fn copy_area(
        &mut self,
        src: BackendDrawable,
        dst: BackendDrawable,
        gc: &BackendGC,
        src_x: i16,
        src_y: i16,
        width: u16,
        height: u16,
        dst_x: i16,
        dst_y: i16,
    ) -> BackendResult<()>;

    // Pixmap operations
    /// Create a pixmap (off-screen drawable)
    fn create_pixmap(&mut self, width: u16, height: u16, depth: u8) -> BackendResult<usize>;

    /// Free a pixmap
    fn free_pixmap(&mut self, pixmap: usize) -> BackendResult<()>;

    // Image operations
    /// Put image data to a drawable
    ///
    /// # Arguments
    /// * `drawable` - Target window or pixmap
    /// * `gc` - Graphics context (for clipping, etc.)
    /// * `width` - Image width in pixels
    /// * `height` - Image height in pixels
    /// * `dst_x` - Destination X coordinate
    /// * `dst_y` - Destination Y coordinate
    /// * `depth` - Bits per pixel (1, 8, 16, 24, 32)
    /// * `format` - Image format (0=Bitmap, 1=XYPixmap, 2=ZPixmap)
    /// * `data` - Raw image data
    fn put_image(
        &mut self,
        drawable: BackendDrawable,
        gc: &BackendGC,
        width: u16,
        height: u16,
        dst_x: i16,
        dst_y: i16,
        depth: u8,
        format: u8,
        data: &[u8],
    ) -> BackendResult<()>;

    /// Get image data from a drawable
    ///
    /// # Arguments
    /// * `drawable` - Source window or pixmap
    /// * `x` - Source X coordinate
    /// * `y` - Source Y coordinate
    /// * `width` - Image width in pixels
    /// * `height` - Image height in pixels
    /// * `plane_mask` - Plane mask (usually 0xFFFFFFFF for all planes)
    /// * `format` - Desired image format (typically 2=ZPixmap)
    ///
    /// # Returns
    /// Returns image data as Vec<u8> in the requested format
    fn get_image(
        &mut self,
        drawable: BackendDrawable,
        x: i16,
        y: i16,
        width: u16,
        height: u16,
        plane_mask: u32,
        format: u8,
    ) -> BackendResult<Vec<u8>>;

    // Cursor operations
    /// Create a standard cursor from a glyph index in the cursor font
    ///
    /// Returns a backend cursor handle that can be used with set_window_cursor.
    /// The glyph index corresponds to the X11 cursor font character.
    fn create_standard_cursor(&mut self, cursor_shape: StandardCursor) -> (r: BackendResult<
        BackendCursor,
    >)
        default_ensures
            r matches Ok(c) && c.0 == 0,
    {
        // Default implementation: return NONE (no cursor change)
        Ok(BackendCursor::none())
    }

    /// Free a cursor
    fn free_cursor(&mut self, cursor: BackendCursor) -> (r: BackendResult<()>)
        default_ensures
            r is Ok,
    {
        // Default implementation: no-op (most backends use system cursors)
        Ok(())
    }

    /// Set the cursor for a window
    ///
    /// If cursor is BackendCursor::none(), the window uses its parent's cursor.
    fn set_window_cursor(&mut self, window: BackendWindow, cursor: BackendCursor) -> (r:
        BackendResult<()>)
        default_ensures
            r is Ok,
    {
        // Default implementation: no-op
        Ok(())
    }

    // Event handling
    /// Poll for events from the backend
    /// This should not block - return empty vec if no events
    fn poll_events(&mut self) -> BackendResult<Vec<BackendEvent>>;

    /// Flush any pending operations to the display
    fn flush(&mut self) -> BackendResult<()>;

    /// Wait for events (blocking)
    fn wait_for_event(&mut self) -> BackendResult<BackendEvent>;
}

} // verus!
