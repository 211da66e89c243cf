//! X11 request parser: turns the bytes of a request into a `Request`.
use vstd::prelude::*;
use super::types::{
    Arc, Atom, ByteOrder, Drawable, GContext, GCFunction, Pixmap, Point, Rectangle, Segment,
    StackMode, VisualID, Window, WindowClass, XID,
};
use super::errors::{x11_error, ErrorCode, X11Error};
use super::requests::RequestOpcode;
use super::spec_pad;
use super::wire::{
    group_wire_lengths, i16_at, i16_bytes, lemma_i16_read, lemma_u16_read, lemma_u32_read,
    text_of, push_bytes, read_i16_at, read_u16_at, read_u32_at, string_from_utf8_lossy, u16_at,
    u16_bytes, u32_at, u32_bytes, zeros,
};

verus! {

/// Parsed X11 request
#[derive(Debug, Clone)]
pub enum Request {
    CreateWindow(CreateWindowRequest),
    ChangeWindowAttributes(ChangeWindowAttributesRequest),
    GetWindowAttributes(GetWindowAttributesRequest),
    DestroyWindow(DestroyWindowRequest),
    MapWindow(MapWindowRequest),
    UnmapWindow(UnmapWindowRequest),
    ConfigureWindow(ConfigureWindowRequest),
    GetGeometry(GetGeometryRequest),
    QueryTree(QueryTreeRequest),
    InternAtom(InternAtomRequest),
    GetAtomName(GetAtomNameRequest),
    ChangeProperty(ChangePropertyRequest),
    GetProperty(GetPropertyRequest),
    CreateGC(CreateGCRequest),
    ChangeGC(ChangeGCRequest),
    FreeGC(FreeGCRequest),
    ClearArea(ClearAreaRequest),
    PolyRectangle(PolyRectangleRequest),
    PolyFillRectangle(PolyFillRectangleRequest),
    PolyLine(PolyLineRequest),
    PolyPoint(PolyPointRequest),
    ImageText8(ImageText8Request),
    CreatePixmap(CreatePixmapRequest),
    FreePixmap(FreePixmapRequest),
    PutImage(PutImageRequest),
    OpenFont(OpenFontRequest),
    CloseFont(CloseFontRequest),
    CreateGlyphCursor(CreateGlyphCursorRequest),
    AllocNamedColor(AllocNamedColorRequest),
    AllocColor(AllocColorRequest),
    QueryFont(QueryFontRequest),
    QueryExtension(QueryExtensionRequest),
    SetSelectionOwner(SetSelectionOwnerRequest),
    GetSelectionOwner(GetSelectionOwnerRequest),
    ConvertSelection(ConvertSelectionRequest),
    GetInputFocus,
    PolySegment(PolySegmentRequest),
    PolyArc(PolyArcRequest),
    PolyFillArc(PolyFillArcRequest),
    CopyArea(CopyAreaRequest),
    GetImage(GetImageRequest),
    FillPoly(FillPolyRequest),
    ExtensionRequest { opcode: u8, data: Vec<u8> },
    NoOperation,
}

/// Create window request
#[derive(Debug, Clone)]
pub struct CreateWindowRequest {
    pub depth: u8,
    pub wid: Window,
    pub parent: Window,
    pub x: i16,
    pub y: i16,
    pub width: u16,
    pub height: u16,
    pub border_width: u16,
    pub class: WindowClass,
    pub visual: VisualID,
    pub background_pixel: Option<u32>,
    pub border_pixel: Option<u32>,
    pub event_mask: Option<u32>,
    pub cursor: Option<u32>,
}

#[derive(Debug, Clone)]
pub struct ChangeWindowAttributesRequest {
    pub window: Window,
    pub background_pixel: Option<u32>,
    pub event_mask: Option<u32>,
    pub cursor: Option<u32>,
}

#[derive(Debug, Clone)]
pub struct GetWindowAttributesRequest {
    pub window: Window,
}

#[derive(Debug, Clone)]
pub struct DestroyWindowRequest {
    pub window: Window,
}

#[derive(Debug, Clone)]
pub struct MapWindowRequest {
    pub window: Window,
}

#[derive(Debug, Clone)]
pub struct UnmapWindowRequest {
    pub window: Window,
}

#[derive(Debug, Clone)]
pub struct ConfigureWindowRequest {
    pub window: Window,
    pub x: Option<i16>,
    pub y: Option<i16>,
    pub width: Option<u16>,
    pub height: Option<u16>,
    pub border_width: Option<u16>,
    pub stack_mode: Option<StackMode>,
}

#[derive(Debug, Clone)]
pub struct GetGeometryRequest {
    pub drawable: Drawable,
}

#[derive(Debug, Clone)]
pub struct QueryTreeRequest {
    pub window: Window,
}

#[derive(Debug, Clone)]
pub struct InternAtomRequest {
    pub only_if_exists: bool,
    pub name: String,
}

#[derive(Debug, Clone)]
pub struct GetAtomNameRequest {
    pub atom: Atom,
}

#[derive(Debug, Clone)]
pub struct ChangePropertyRequest {
    pub window: Window,
    pub property: Atom,
    pub type_: Atom,
    pub format: u8,
    pub mode: u8,
    pub data: Vec<u8>,
}

#[derive(Debug, Clone)]
pub struct GetPropertyRequest {
    pub delete: bool,
    pub window: Window,
    pub property: Atom,
    pub type_: Atom,
    pub long_offset: u32,
    pub long_length: u32,
}

#[derive(Debug, Clone)]
pub struct SetSelectionOwnerRequest {
    pub owner: Window,
    pub selection: Atom,
    pub time: u32,
}

#[derive(Debug, Clone)]
pub struct GetSelectionOwnerRequest {
    pub selection: Atom,
}

#[derive(Debug, Clone)]
pub struct ConvertSelectionRequest {
    pub requestor: Window,
    pub selection: Atom,
    pub target: Atom,
    pub property: Atom,
    pub time: u32,
}

#[derive(Debug, Clone)]
pub struct CreateGCRequest {
    pub cid: GContext,
    pub drawable: Drawable,
    pub foreground: Option<u32>,
    pub background: Option<u32>,
    pub line_width: Option<u16>,
    pub function: Option<GCFunction>,
}

#[derive(Debug, Clone)]
pub struct ChangeGCRequest {
    pub gc: GContext,
    pub foreground: Option<u32>,
    pub background: Option<u32>,
}

#[derive(Debug, Clone)]
pub struct FreeGCRequest {
    pub gc: GContext,
}

#[derive(Debug, Clone)]
pub struct ClearAreaRequest {
    pub exposures: bool,
    pub window: Window,
    pub x: i16,
    pub y: i16,
    pub width: u16,
    pub height: u16,
}

#[derive(Debug, Clone)]
pub struct PolyRectangleRequest {
    pub drawable: Drawable,
    pub gc: GContext,
    pub rectangles: Vec<Rectangle>,
}

#[derive(Debug, Clone)]
pub struct PolyFillRectangleRequest {
    pub drawable: Drawable,
    pub gc: GContext,
    pub rectangles: Vec<Rectangle>,
}

#[derive(Debug, Clone)]
pub struct PolyLineRequest {
    pub coordinate_mode: u8,
    pub drawable: Drawable,
    pub gc: GContext,
    pub points: Vec<Point>,
}

#[derive(Debug, Clone)]
pub struct PolyPointRequest {
    pub coordinate_mode: u8,
    pub drawable: Drawable,
    pub gc: GContext,
    pub points: Vec<Point>,
}

#[derive(Debug, Clone)]
pub struct ImageText8Request {
    pub drawable: Drawable,
    pub gc: GContext,
    pub x: i16,
    pub y: i16,
    pub string: String,
}

#[derive(Debug, Clone)]
pub struct CreatePixmapRequest {
    pub depth: u8,
    pub pid: Pixmap,
    pub drawable: Drawable,
    pub width: u16,
    pub height: u16,
}

#[derive(Debug, Clone)]
pub struct FreePixmapRequest {
    pub pixmap: Pixmap,
}

#[derive(Debug, Clone)]
pub struct PutImageRequest {
    pub format: u8,
    pub drawable: Drawable,
    pub gc: GContext,
    pub width: u16,
    pub height: u16,
    pub dst_x: i16,
    pub dst_y: i16,
    pub left_pad: u8,
    pub depth: u8,
    pub data: Vec<u8>,
}

#[derive(Debug, Clone)]
pub struct OpenFontRequest {
    pub fid: u32,
    pub name: String,
}

#[derive(Debug, Clone)]
pub struct CloseFontRequest {
    pub font: u32,
}

#[derive(Debug, Clone)]
pub struct CreateGlyphCursorRequest {
    pub cid: u32,
    pub source_font: u32,
    pub mask_font: u32,
}

#[derive(Debug, Clone)]
pub struct AllocNamedColorRequest {
    pub colormap: u32,
    pub name: String,
}

#[derive(Debug, Clone)]
pub struct AllocColorRequest {
    pub colormap: u32,
    pub red: u16,
    pub green: u16,
    pub blue: u16,
}

#[derive(Debug, Clone)]
pub struct QueryFontRequest {
    pub font: u32,
}

#[derive(Debug, Clone)]
pub struct QueryExtensionRequest {
    pub name: String,
}

#[derive(Debug, Clone)]
pub struct PolySegmentRequest {
    pub drawable: Drawable,
    pub gc: GContext,
    pub segments: Vec<Segment>,
}

#[derive(Debug, Clone)]
pub struct PolyArcRequest {
    pub drawable: Drawable,
    pub gc: GContext,
    pub arcs: Vec<Arc>,
}

#[derive(Debug, Clone)]
pub struct PolyFillArcRequest {
    pub drawable: Drawable,
    pub gc: GContext,
    pub arcs: Vec<Arc>,
}

#[derive(Debug, Clone)]
pub struct CopyAreaRequest {
    pub src_drawable: Drawable,
    pub dst_drawable: Drawable,
    pub gc: GContext,
    pub src_x: i16,
    pub src_y: i16,
    pub dst_x: i16,
    pub dst_y: i16,
    pub width: u16,
    pub height: u16,
}

#[derive(Debug, Clone)]
pub struct GetImageRequest {
    pub format: u8,
    pub drawable: Drawable,
    pub x: i16,
    pub y: i16,
    pub width: u16,
    pub height: u16,
    pub plane_mask: u32,
}

#[derive(Debug, Clone)]
pub struct FillPolyRequest {
    pub drawable: Drawable,
    pub gc: GContext,
    pub shape: u8,
    pub coordinate_mode: u8,
    pub points: Vec<Point>,
}

// ---------------------------------------------------------------------------
// What a request's bytes mean.
// ---------------------------------------------------------------------------

/// Whether bit `bit` of a value mask is set.
pub open spec fn mask_bit(mask: u32, bit: u32) -> bool {
    mask & (1u32 << bit) != 0
}

/// How many of the bits `0 .. bit` of `mask` are set: the position, in 4-byte
/// units, of the value for `bit` in a request's value list.
pub open spec fn set_bits_below(mask: u32, bit: nat) -> nat
    decreases bit,
{
    if bit == 0 {
        0
    } else {
        set_bits_below(mask, (bit - 1) as nat) + (if mask_bit(mask, (bit - 1) as u32) {
            1nat
        } else {
            0nat
        })
    }
}

/// At most `bit` of the bits below `bit` are set.
pub proof fn lemma_set_bits_below_bound(mask: u32, bit: nat)
    ensures
        set_bits_below(mask, bit) <= bit,
    decreases bit,
{
    if bit > 0 {
        lemma_set_bits_below_bound(mask, (bit - 1) as nat);
    }
}

/// The value-list entry for `bit`, in a value list that starts at `base`, if the mask has it.
pub open spec fn value_for(order: ByteOrder, data: Seq<u8>, base: int, mask: u32, bit: u32) -> Option<u32> {
    if mask_bit(mask, bit) {
        Some(u32_at(order, data, base + 4 * set_bits_below(mask, bit as nat)))
    } else {
        None
    }
}

/// The value-list entry for `bit` lies inside `data` when the mask has it.
pub open spec fn value_in_bounds(data: Seq<u8>, base: int, mask: u32, bit: u32) -> bool {
    mask_bit(mask, bit) ==> base + 4 * set_bits_below(mask, bit as nat) + 4 <= data.len()
}

/// The rectangle at `off`.
pub open spec fn rect_at(order: ByteOrder, data: Seq<u8>, off: int) -> Rectangle {
    Rectangle {
        x: i16_at(order, data, off),
        y: i16_at(order, data, off + 2),
        width: u16_at(order, data, off + 4),
        height: u16_at(order, data, off + 6),
    }
}

/// The point at `off`.
pub open spec fn point_at(order: ByteOrder, data: Seq<u8>, off: int) -> Point {
    Point { x: i16_at(order, data, off), y: i16_at(order, data, off + 2) }
}

/// The segment at `off`.
pub open spec fn segment_at(order: ByteOrder, data: Seq<u8>, off: int) -> Segment {
    Segment {
        x1: i16_at(order, data, off),
        y1: i16_at(order, data, off + 2),
        x2: i16_at(order, data, off + 4),
        y2: i16_at(order, data, off + 6),
    }
}

/// The arc at `off`.
pub open spec fn arc_at(order: ByteOrder, data: Seq<u8>, off: int) -> Arc {
    Arc {
        x: i16_at(order, data, off),
        y: i16_at(order, data, off + 2),
        width: u16_at(order, data, off + 4),
        height: u16_at(order, data, off + 6),
        angle1: i16_at(order, data, off + 8),
        angle2: i16_at(order, data, off + 10),
    }
}

/// How many whole items of `size` bytes follow offset `start` in `data`.
pub open spec fn item_count(data: Seq<u8>, start: int, size: int) -> nat {
    if data.len() >= start {
        ((data.len() - start) / size) as nat
    } else {
        0
    }
}

/// The rectangles from offset `start` to the end of `data`; a trailing partial one is dropped.
pub open spec fn rects_from(order: ByteOrder, data: Seq<u8>, start: int) -> Seq<Rectangle> {
    Seq::new(item_count(data, start, 8), |i: int| rect_at(order, data, start + 8 * i))
}

/// The points from offset `start` to the end of `data`.
pub open spec fn points_from(order: ByteOrder, data: Seq<u8>, start: int) -> Seq<Point> {
    Seq::new(item_count(data, start, 4), |i: int| point_at(order, data, start + 4 * i))
}

/// The segments from offset `start` to the end of `data`.
pub open spec fn segments_from(order: ByteOrder, data: Seq<u8>, start: int) -> Seq<Segment> {
    Seq::new(item_count(data, start, 8), |i: int| segment_at(order, data, start + 8 * i))
}

/// The arcs from offset `start` to the end of `data`.
pub open spec fn arcs_from(order: ByteOrder, data: Seq<u8>, start: int) -> Seq<Arc> {
    Seq::new(item_count(data, start, 12), |i: int| arc_at(order, data, start + 12 * i))
}

/// CreateWindow: `depth` is the header's detail byte, `data` the bytes after the header.
pub open spec fn create_window_fits(order: ByteOrder, depth: u8, data: Seq<u8>, r: CreateWindowRequest) -> bool {
    let mask = u32_at(order, data, 24);
    &&& r.depth == depth
    &&& r.wid == Window(XID(u32_at(order, data, 0)))
    &&& r.parent == Window(XID(u32_at(order, data, 4)))
    &&& r.x == i16_at(order, data, 8)
    &&& r.y == i16_at(order, data, 10)
    &&& r.width == u16_at(order, data, 12)
    &&& r.height == u16_at(order, data, 14)
    &&& r.border_width == u16_at(order, data, 16)
    &&& WindowClass::spec_from_u16(u16_at(order, data, 18)) == Some(r.class)
    &&& r.visual == VisualID(u32_at(order, data, 20))
    &&& r.background_pixel == value_for(order, data, 28, mask, 1)
    &&& r.border_pixel == value_for(order, data, 28, mask, 3)
    &&& r.event_mask == value_for(order, data, 28, mask, 11)
    &&& r.cursor == value_for(order, data, 28, mask, 14)
}

/// ChangeWindowAttributes
pub open spec fn change_window_attributes_fits(order: ByteOrder, data: Seq<u8>, r: ChangeWindowAttributesRequest) -> bool {
    let mask = u32_at(order, data, 4);
    &&& r.window == Window(XID(u32_at(order, data, 0)))
    &&& r.background_pixel == value_for(order, data, 8, mask, 1)
    &&& r.event_mask == value_for(order, data, 8, mask, 11)
    &&& r.cursor == value_for(order, data, 8, mask, 14)
}

/// The window named in the first four bytes of `data`.
pub open spec fn window_at0(order: ByteOrder, data: Seq<u8>) -> Window {
    Window(XID(u32_at(order, data, 0)))
}

/// The drawable named at `off`: taken to be a window.
pub open spec fn drawable_at(order: ByteOrder, data: Seq<u8>, off: int) -> Drawable {
    Drawable::Window(Window(XID(u32_at(order, data, off))))
}

/// The graphics context named at `off`.
pub open spec fn gc_at(order: ByteOrder, data: Seq<u8>, off: int) -> GContext {
    GContext(XID(u32_at(order, data, off)))
}

/// The bytes of a counted string: its length is the `u16` at `len_off`, its bytes
/// start at `start`.
pub open spec fn counted_bytes(order: ByteOrder, data: Seq<u8>, len_off: int, start: int) -> Seq<u8> {
    data.subrange(start, start + u16_at(order, data, len_off))
}

/// Whether `req` is what this server makes of the request `buf` in `order`, when the
/// request is accepted.
pub open spec fn parsed_as(order: ByteOrder, buf: Seq<u8>, req: Request) -> bool {
    let opcode = buf[0];
    let detail = buf[1];
    let data = buf.subrange(4, u16_at(order, buf, 2) * 4);
    match RequestOpcode::spec_from_u8(opcode) {
        Some(RequestOpcode::CreateWindow) => req matches Request::CreateWindow(r)
            && create_window_fits(order, detail, data, r),
        Some(RequestOpcode::ChangeWindowAttributes) => req matches Request::ChangeWindowAttributes(r)
            && change_window_attributes_fits(order, data, r),
        Some(RequestOpcode::GetWindowAttributes) => req matches Request::GetWindowAttributes(r)
            && r.window == window_at0(order, data),
        Some(RequestOpcode::DestroyWindow) => req matches Request::DestroyWindow(r) && r.window
            == window_at0(order, data),
        Some(RequestOpcode::MapWindow) => req matches Request::MapWindow(r) && r.window
            == window_at0(order, data),
        Some(RequestOpcode::UnmapWindow) => req matches Request::UnmapWindow(r) && r.window
            == window_at0(order, data),
        Some(RequestOpcode::ConfigureWindow) => req matches Request::ConfigureWindow(r) && r.window
            == window_at0(order, data) && r.x is None && r.y is None && r.width is None
            && r.height is None && r.border_width is None && r.stack_mode is None,
        Some(RequestOpcode::GetGeometry) => req matches Request::GetGeometry(r) && r.drawable
            == drawable_at(order, data, 0),
        Some(RequestOpcode::QueryTree) => req matches Request::QueryTree(r) && r.window
            == window_at0(order, data),
        Some(RequestOpcode::InternAtom) => req matches Request::InternAtom(r) && r.only_if_exists
            == (detail != 0) && r.name@ == text_of(counted_bytes(order, data, 0, 4)),
        Some(RequestOpcode::GetAtomName) => req matches Request::GetAtomName(r) && r.atom == Atom(
            u32_at(order, data, 0),
        ),
        Some(RequestOpcode::ChangeProperty) => req matches Request::ChangeProperty(r) && r.window
            == window_at0(order, data) && r.property == Atom(u32_at(order, data, 4)) && r.type_
            == Atom(u32_at(order, data, 8)) && r.format == data[12] && r.mode == detail && r.data@
            == data.subrange(20, 20 + u32_at(order, data, 16)),
        Some(RequestOpcode::GetProperty) => req matches Request::GetProperty(r) && r.delete == (
        detail != 0) && r.window == window_at0(order, data) && r.property == Atom(
            u32_at(order, data, 4),
        ) && r.type_ == Atom(u32_at(order, data, 8)) && r.long_offset == u32_at(order, data, 12)
            && r.long_length == u32_at(order, data, 16),
        Some(RequestOpcode::CreateGC) => req matches Request::CreateGC(r) && r.cid == gc_at(
            order,
            data,
            0,
        ) && r.drawable == drawable_at(order, data, 4) && r.foreground is None
            && r.background is None
            && r.line_width is None && r.function is None,
        Some(RequestOpcode::ChangeGC) => req matches Request::ChangeGC(r) && r.gc == gc_at(
            order,
            data,
            0,
        ) && r.foreground is None && r.background is None,
        Some(RequestOpcode::FreeGC) => req matches Request::FreeGC(r)
            && r.gc == gc_at(order, data, 0),
        Some(RequestOpcode::ClearArea) => req matches Request::ClearArea(r)
            && r.exposures == (detail
            != 0) && r.window == window_at0(order, data) && r.x == i16_at(order, data, 4) && r.y
            == i16_at(order, data, 6) && r.width == u16_at(order, data, 8) && r.height == u16_at(
            order,
            data,
            10,
        ),
        Some(RequestOpcode::PolyRectangle) => req matches Request::PolyRectangle(r) && r.drawable
            == drawable_at(order, data, 0) && r.gc == gc_at(order, data, 4) && r.rectangles@
            == rects_from(order, data, 8),
        Some(RequestOpcode::PolyFillRectangle) => req matches Request::PolyFillRectangle(r)
            && r.drawable == drawable_at(order, data, 0) && r.gc == gc_at(order, data, 4)
            && r.rectangles@ == rects_from(order, data, 8),
        Some(RequestOpcode::PolyLine) => req matches Request::PolyLine(r) && r.coordinate_mode
            == detail && r.drawable == drawable_at(order, data, 0) && r.gc == gc_at(order, data, 4)
            && r.points@ == points_from(order, data, 8),
        Some(RequestOpcode::PolyPoint) => req matches Request::PolyPoint(r) && r.coordinate_mode
            == detail && r.drawable == drawable_at(order, data, 0) && r.gc == gc_at(order, data, 4)
            && r.points@ == points_from(order, data, 8),
        Some(RequestOpcode::ImageText8) => req matches Request::ImageText8(r) && r.drawable
            == drawable_at(order, data, 0) && r.gc == gc_at(order, data, 4) && r.x == i16_at(
            order,
            data,
            8,
        ) && r.y == i16_at(order, data, 10) && r.string@ == text_of(
            data.subrange(12, 12 + detail),
        ),
        Some(RequestOpcode::CreatePixmap) => req matches Request::CreatePixmap(r)
            && r.depth == detail
            && r.pid == Pixmap(XID(u32_at(order, data, 0))) && r.drawable == drawable_at(
            order,
            data,
            4,
        ) && r.width == u16_at(order, data, 8) && r.height == u16_at(order, data, 10),
        Some(RequestOpcode::FreePixmap) => req matches Request::FreePixmap(r)
            && r.pixmap == Pixmap(
            XID(u32_at(order, data, 0)),
        ),
        Some(RequestOpcode::PutImage) => req matches Request::PutImage(r) && r.format == detail
            && r.drawable == drawable_at(order, data, 0) && r.gc == gc_at(order, data, 4)
                && r.width
            == u16_at(order, data, 8) && r.height == u16_at(order, data, 10) && r.dst_x == i16_at(
            order,
            data,
            12,
        ) && r.dst_y == i16_at(order, data, 14) && r.left_pad == data[16] && r.depth == data[17]
            && r.data@ == data.subrange(20, data.len() as int),
        Some(RequestOpcode::OpenFont) => req matches Request::OpenFont(r) && r.fid == u32_at(
            order,
            data,
            0,
        ) && r.name@ == text_of(counted_bytes(order, data, 4, 8)),
        Some(RequestOpcode::CloseFont) => req matches Request::CloseFont(r) && r.font == u32_at(
            order,
            data,
            0,
        ),
        Some(RequestOpcode::CreateGlyphCursor) => req matches Request::CreateGlyphCursor(r)
            && r.cid
            == u32_at(order, data, 0) && r.source_font == u32_at(order, data, 4) && r.mask_font
            == u32_at(order, data, 8),
        Some(RequestOpcode::AllocNamedColor) => req matches Request::AllocNamedColor(r)
            && r.colormap
            == u32_at(order, data, 0) && r.name@ == text_of(counted_bytes(order, data, 4, 8)),
        Some(RequestOpcode::QueryFont) => req matches Request::QueryFont(r) && r.font == u32_at(
            order,
            data,
            0,
        ),
        Some(RequestOpcode::QueryExtension) => req matches Request::QueryExtension(r) && r.name@
            == text_of(counted_bytes(order, data, 0, 4)),
        Some(RequestOpcode::SetSelectionOwner) => req matches Request::SetSelectionOwner(r)
            && r.owner
            == window_at0(order, data) && r.selection == Atom(u32_at(order, data, 4)) && r.time
            == u32_at(order, data, 8),
        Some(RequestOpcode::GetSelectionOwner) => req matches Request::GetSelectionOwner(r)
            && r.selection == Atom(u32_at(order, data, 0)),
        Some(RequestOpcode::ConvertSelection) => req matches Request::ConvertSelection(r)
            && r.requestor == window_at0(order, data)
                && r.selection == Atom(u32_at(order, data, 4))
            && r.target == Atom(u32_at(order, data, 8)) && r.property == Atom(
            u32_at(order, data, 12),
        ) && r.time == u32_at(order, data, 16),
        Some(RequestOpcode::GetInputFocus) => req is GetInputFocus,
        Some(RequestOpcode::PolySegment) => req matches Request::PolySegment(r) && r.drawable
            == drawable_at(order, data, 0) && r.gc == gc_at(order, data, 4) && r.segments@
            == segments_from(order, data, 8),
        Some(RequestOpcode::PolyArc) => req matches Request::PolyArc(r)
            && r.drawable == drawable_at(
            order,
            data,
            0,
        ) && r.gc == gc_at(order, data, 4) && r.arcs@ == arcs_from(order, data, 8),
        Some(RequestOpcode::FillPoly) => req matches Request::FillPoly(r) && r.drawable
            == drawable_at(order, data, 0) && r.gc == gc_at(order, data, 4) && r.shape == detail
            && r.coordinate_mode == data[9] && r.points@ == points_from(order, data, 12),
        Some(RequestOpcode::PolyFillArc) => req matches Request::PolyFillArc(r) && r.drawable
            == drawable_at(order, data, 0) && r.gc == gc_at(order, data, 4)
                && r.arcs@ == arcs_from(
            order,
            data,
            8,
        ),
        Some(RequestOpcode::CopyArea) => req matches Request::CopyArea(r) && r.src_drawable
            == drawable_at(order, data, 0) && r.dst_drawable == drawable_at(order, data, 4) && r.gc
            == gc_at(order, data, 8) && r.src_x == i16_at(order, data, 12) && r.src_y == i16_at(
            order,
            data,
            14,
        ) && r.dst_x == i16_at(order, data, 16) && r.dst_y == i16_at(order, data, 18) && r.width
            == u16_at(order, data, 20) && r.height == u16_at(order, data, 22),
        Some(RequestOpcode::GetImage) => req matches Request::GetImage(r) && r.format == detail
            && r.drawable == drawable_at(order, data, 0) && r.x == i16_at(order, data, 4) && r.y
            == i16_at(order, data, 6) && r.width == u16_at(order, data, 8) && r.height == u16_at(
            order,
            data,
            10,
        ) && r.plane_mask == u32_at(order, data, 12),
        Some(RequestOpcode::NoOperation) => req is NoOperation,
        _ => req matches Request::ExtensionRequest { opcode: op, data: d } && op == opcode && d@
            == data,
    }
}

/// The requests whose opcode the parser handles; any other opcode below 128 is
/// answered with an Implementation error, and opcodes from 128 on are extension requests.
pub open spec fn is_handled(opcode: u8) -> bool {
    match RequestOpcode::spec_from_u8(opcode) {
        Some(RequestOpcode::CreateWindow) | Some(RequestOpcode::ChangeWindowAttributes) | Some(
            RequestOpcode::GetWindowAttributes,
        ) | Some(RequestOpcode::DestroyWindow) | Some(RequestOpcode::MapWindow) | Some(
            RequestOpcode::UnmapWindow,
        ) | Some(RequestOpcode::ConfigureWindow) | Some(RequestOpcode::GetGeometry) | Some(
            RequestOpcode::QueryTree,
        ) | Some(RequestOpcode::InternAtom) | Some(RequestOpcode::GetAtomName) | Some(
            RequestOpcode::ChangeProperty,
        ) | Some(RequestOpcode::GetProperty) | Some(RequestOpcode::CreateGC) | Some(
            RequestOpcode::ChangeGC,
        ) | Some(RequestOpcode::FreeGC) | Some(RequestOpcode::ClearArea) | Some(
            RequestOpcode::PolyRectangle,
        ) | Some(RequestOpcode::PolyFillRectangle) | Some(RequestOpcode::PolyLine) | Some(
            RequestOpcode::PolyPoint,
        ) | Some(RequestOpcode::ImageText8) | Some(RequestOpcode::CreatePixmap) | Some(
            RequestOpcode::FreePixmap,
        ) | Some(RequestOpcode::PutImage) | Some(RequestOpcode::OpenFont) | Some(
            RequestOpcode::CloseFont,
        ) | Some(RequestOpcode::CreateGlyphCursor) | Some(RequestOpcode::AllocNamedColor) | Some(
            RequestOpcode::QueryFont,
        ) | Some(RequestOpcode::QueryExtension) | Some(RequestOpcode::SetSelectionOwner) | Some(
            RequestOpcode::GetSelectionOwner,
        ) | Some(RequestOpcode::ConvertSelection) | Some(RequestOpcode::GetInputFocus) | Some(
            RequestOpcode::PolySegment,
        ) | Some(RequestOpcode::PolyArc) | Some(RequestOpcode::FillPoly) | Some(
            RequestOpcode::PolyFillArc,
        ) | Some(RequestOpcode::CopyArea) | Some(RequestOpcode::GetImage) | Some(
            RequestOpcode::NoOperation,
        ) => true,
        _ => false,
    }
}

/// The error with which the request `buf` is refused, or `None` when it is accepted.
pub open spec fn parse_error(order: ByteOrder, buf: Seq<u8>) -> Option<X11Error> {
    if buf.len() < 4 {
        Some(x11_error(ErrorCode::Length, 0, 0, 0, buf[0]))
    } else if buf.len() < u16_at(order, buf, 2) * 4 {
        Some(x11_error(ErrorCode::Length, 0, 0, 0, buf[0]))
    } else if buf[0] == 1 && WindowClass::spec_from_u16(
        u16_at(order, buf.subrange(4, u16_at(order, buf, 2) * 4), 18),
    ) is None {
        Some(x11_error(ErrorCode::Value, 0, 0, 0, 1))
    } else if !is_handled(buf[0]) && buf[0] < 128 {
        Some(x11_error(ErrorCode::Implementation, 0, 0, 0, buf[0]))
    } else {
        None
    }
}

/// The bytes after the header reach far enough for every field that the request's
/// parser reads.
pub open spec fn data_in_bounds(order: ByteOrder, opcode: u8, detail: u8, data: Seq<u8>) -> bool {
    match RequestOpcode::spec_from_u8(opcode) {
        Some(RequestOpcode::CreateWindow) => data.len() >= 20 && (WindowClass::spec_from_u16(
            u16_at(order, data, 18),
        ) is Some ==> data.len() >= 28 && value_in_bounds(data, 28, u32_at(order, data, 24), 1)
            && value_in_bounds(data, 28, u32_at(order, data, 24), 3) && value_in_bounds(
            data,
            28,
            u32_at(order, data, 24),
            11,
        ) && value_in_bounds(data, 28, u32_at(order, data, 24), 14)),
        Some(RequestOpcode::ChangeWindowAttributes) => data.len() >= 8 && value_in_bounds(
            data,
            8,
            u32_at(order, data, 4),
            1,
        ) && value_in_bounds(data, 8, u32_at(order, data, 4), 11) && value_in_bounds(
            data,
            8,
            u32_at(order, data, 4),
            14,
        ),
        Some(RequestOpcode::InternAtom) | Some(RequestOpcode::QueryExtension) => data.len() >= 2
            && 4 + u16_at(order, data, 0) <= data.len(),
        Some(RequestOpcode::ChangeProperty) => data.len() >= 20 && 20 + u32_at(order, data, 16)
            <= data.len(),
        Some(RequestOpcode::GetProperty) | Some(RequestOpcode::PutImage) | Some(
            RequestOpcode::ConvertSelection,
        ) => data.len() >= 20,
        Some(RequestOpcode::CreateGC) | Some(RequestOpcode::PolyRectangle) | Some(
            RequestOpcode::PolyFillRectangle,
        ) | Some(RequestOpcode::PolyLine) | Some(RequestOpcode::PolyPoint) | Some(
            RequestOpcode::PolySegment,
        ) | Some(RequestOpcode::PolyArc) | Some(RequestOpcode::PolyFillArc) => data.len() >= 8,
        Some(RequestOpcode::ClearArea) | Some(RequestOpcode::CreatePixmap) | Some(
            RequestOpcode::CreateGlyphCursor,
        ) | Some(RequestOpcode::SetSelectionOwner) => data.len() >= 12,
        Some(RequestOpcode::ImageText8) => data.len() >= 12 && 12 + detail <= data.len(),
        Some(RequestOpcode::OpenFont) | Some(RequestOpcode::AllocNamedColor) => data.len() >= 6
            && 8
            + u16_at(order, data, 4) <= data.len(),
        Some(RequestOpcode::FillPoly) => data.len() >= 10,
        Some(RequestOpcode::CopyArea) => data.len() >= 24,
        Some(RequestOpcode::GetImage) => data.len() >= 16,
        Some(RequestOpcode::GetWindowAttributes) | Some(RequestOpcode::DestroyWindow) | Some(
            RequestOpcode::MapWindow,
        ) | Some(RequestOpcode::UnmapWindow) | Some(RequestOpcode::ConfigureWindow) | Some(
            RequestOpcode::GetGeometry,
        ) | Some(RequestOpcode::QueryTree) | Some(RequestOpcode::GetAtomName) | Some(
            RequestOpcode::ChangeGC,
        ) | Some(RequestOpcode::FreeGC) | Some(RequestOpcode::FreePixmap) | Some(
            RequestOpcode::CloseFont,
        ) | Some(RequestOpcode::QueryFont) | Some(RequestOpcode::GetSelectionOwner) => data.len()
            >= 4,
        _ => true,
    }
}

/// The parser reads only inside `buf`: the buffer holds at least the opcode, and a
/// request whose declared length fits the buffer declares at least its header and
/// carries every field that its kind reads.
pub open spec fn request_in_bounds(order: ByteOrder, buf: Seq<u8>) -> bool {
    &&& buf.len() >= 1
    &&& (buf.len() >= 4 && buf.len() >= u16_at(order, buf, 2) * 4) ==> {
        &&& u16_at(order, buf, 2) >= 1
        &&& data_in_bounds(order, buf[0], buf[1], buf.subrange(4, u16_at(order, buf, 2) * 4))
    }
}

/// A request depends only on its own bytes: followed by any other bytes in the
/// stream, the bytes of a request (as many as its length field declares) fail with
/// the same error, parse to the same request, and stay in bounds just as they do alone.
pub proof fn lemma_request_own_bytes(order: ByteOrder, buf: Seq<u8>, rest: Seq<u8>, req: Request)
    requires
        buf.len() >= 4,
        u16_at(order, buf, 2) >= 1,
        u16_at(order, buf, 2) * 4 == buf.len(),
    ensures
        parse_error(order, buf + rest) == parse_error(order, buf),
        parsed_as(order, buf + rest, req) == parsed_as(order, buf, req),
        request_in_bounds(order, buf + rest) == request_in_bounds(order, buf),
{
    let c = buf + rest;
    assert(c[0] == buf[0] && c[1] == buf[1] && c[2] == buf[2] && c[3] == buf[3]);
    assert(u16_at(order, c, 2) == u16_at(order, buf, 2));
    assert(c.subrange(4, u16_at(order, c, 2) * 4) =~= buf.subrange(4, u16_at(order, buf, 2) * 4));
}

/// The X11 opcode of each kind of request; an extension request carries its own.
pub open spec fn request_opcode(req: Request) -> u8 {
    match req {
        Request::CreateWindow(_) => 1,
        Request::ChangeWindowAttributes(_) => 2,
        Request::GetWindowAttributes(_) => 3,
        Request::DestroyWindow(_) => 4,
        Request::MapWindow(_) => 8,
        Request::UnmapWindow(_) => 10,
        Request::ConfigureWindow(_) => 12,
        Request::GetGeometry(_) => 14,
        Request::QueryTree(_) => 15,
        Request::InternAtom(_) => 16,
        Request::GetAtomName(_) => 17,
        Request::ChangeProperty(_) => 18,
        Request::GetProperty(_) => 20,
        Request::SetSelectionOwner(_) => 22,
        Request::GetSelectionOwner(_) => 23,
        Request::ConvertSelection(_) => 24,
        Request::GetInputFocus => 43,
        Request::OpenFont(_) => 45,
        Request::CloseFont(_) => 46,
        Request::QueryFont(_) => 47,
        Request::CreatePixmap(_) => 53,
        Request::FreePixmap(_) => 54,
        Request::CreateGC(_) => 55,
        Request::ChangeGC(_) => 56,
        Request::FreeGC(_) => 60,
        Request::ClearArea(_) => 61,
        Request::CopyArea(_) => 62,
        Request::PolyPoint(_) => 64,
        Request::PolyLine(_) => 65,
        Request::PolySegment(_) => 66,
        Request::PolyRectangle(_) => 67,
        Request::PolyArc(_) => 68,
        Request::FillPoly(_) => 69,
        Request::PolyFillRectangle(_) => 70,
        Request::PolyFillArc(_) => 71,
        Request::PutImage(_) => 72,
        Request::GetImage(_) => 73,
        Request::ImageText8(_) => 76,
        Request::AllocColor(_) => 84,
        Request::AllocNamedColor(_) => 85,
        Request::CreateGlyphCursor(_) => 94,
        Request::QueryExtension(_) => 98,
        Request::NoOperation => 127,
        Request::ExtensionRequest { opcode, .. } => opcode,
    }
}

/// A request is read as the kind of request that its opcode names: whatever the rest
/// of its bytes and the byte order, the request it is read as has the opcode of its
/// first byte.
pub proof fn lemma_parsed_request_has_opcode(order: ByteOrder, buf: Seq<u8>, req: Request)
    requires
        parsed_as(order, buf, req),
    ensures
        request_opcode(req) == buf[0],
{
}

/// A GetWindowAttributes request (opcode 3) naming `window` is accepted in either byte order and
/// reads as GetWindowAttributes of that window, and as nothing else.
pub proof fn lemma_get_window_attributes_request_reads_back(
    order: ByteOrder,
    window: u32,
    req: Request,
)
    ensures
        ({
            let b = seq![3u8, 0u8] + u16_bytes(order, 2) + u32_bytes(order, window);
            &&& request_in_bounds(order, b)
            &&& parse_error(order, b) is None
            &&& parsed_as(order, b, req) <==> (req matches Request::GetWindowAttributes(r)
                && r.window == Window(XID(window)))
        }),
{
    broadcast use group_wire_lengths;

    let b = seq![3u8, 0u8] + u16_bytes(order, 2) + u32_bytes(order, window);
    assert(b.len() == 8);
    assert(b.subrange(2, 4) =~= u16_bytes(order, 2));
    lemma_u16_read(order, b, 2, 2);
    let data = b.subrange(4, 8);
    assert(data.subrange(0, 4) =~= u32_bytes(order, window));
    lemma_u32_read(order, data, 0, window);
}

/// A DestroyWindow request (opcode 4) naming `window` is accepted in either byte order and
/// reads as DestroyWindow of that window, and as nothing else.
pub proof fn lemma_destroy_window_request_reads_back(
    order: ByteOrder,
    window: u32,
    req: Request,
)
    ensures
        ({
            let b = seq![4u8, 0u8] + u16_bytes(order, 2) + u32_bytes(order, window);
            &&& request_in_bounds(order, b)
            &&& parse_error(order, b) is None
            &&& parsed_as(order, b, req) <==> (req matches Request::DestroyWindow(r)
                && r.window == Window(XID(window)))
        }),
{
    broadcast use group_wire_lengths;

    let b = seq![4u8, 0u8] + u16_bytes(order, 2) + u32_bytes(order, window);
    assert(b.len() == 8);
    assert(b.subrange(2, 4) =~= u16_bytes(order, 2));
    lemma_u16_read(order, b, 2, 2);
    let data = b.subrange(4, 8);
    assert(data.subrange(0, 4) =~= u32_bytes(order, window));
    lemma_u32_read(order, data, 0, window);
}

/// A MapWindow request (opcode 8) naming `window` is accepted in either byte order and
/// reads as MapWindow of that window, and as nothing else.
pub proof fn lemma_map_window_request_reads_back(
    order: ByteOrder,
    window: u32,
    req: Request,
)
    ensures
        ({
            let b = seq![8u8, 0u8] + u16_bytes(order, 2) + u32_bytes(order, window);
            &&& request_in_bounds(order, b)
            &&& parse_error(order, b) is None
            &&& parsed_as(order, b, req) <==> (req matches Request::MapWindow(r)
                && r.window == Window(XID(window)))
        }),
{
    broadcast use group_wire_lengths;

    let b = seq![8u8, 0u8] + u16_bytes(order, 2) + u32_bytes(order, window);
    assert(b.len() == 8);
    assert(b.subrange(2, 4) =~= u16_bytes(order, 2));
    lemma_u16_read(order, b, 2, 2);
    let data = b.subrange(4, 8);
    assert(data.subrange(0, 4) =~= u32_bytes(order, window));
    lemma_u32_read(order, data, 0, window);
}

/// A UnmapWindow request (opcode 10) naming `window` is accepted in either byte order and
/// reads as UnmapWindow of that window, and as nothing else.
pub proof fn lemma_unmap_window_request_reads_back(
    order: ByteOrder,
    window: u32,
    req: Request,
)
    ensures
        ({
            let b = seq![10u8, 0u8] + u16_bytes(order, 2) + u32_bytes(order, window);
            &&& request_in_bounds(order, b)
            &&& parse_error(order, b) is None
            &&& parsed_as(order, b, req) <==> (req matches Request::UnmapWindow(r)
                && r.window == Window(XID(window)))
        }),
{
    broadcast use group_wire_lengths;

    let b = seq![10u8, 0u8] + u16_bytes(order, 2) + u32_bytes(order, window);
    assert(b.len() == 8);
    assert(b.subrange(2, 4) =~= u16_bytes(order, 2));
    lemma_u16_read(order, b, 2, 2);
    let data = b.subrange(4, 8);
    assert(data.subrange(0, 4) =~= u32_bytes(order, window));
    lemma_u32_read(order, data, 0, window);
}

/// A QueryTree request (opcode 15) naming `window` is accepted in either byte order and
/// reads as QueryTree of that window, and as nothing else.
pub proof fn lemma_query_tree_request_reads_back(
    order: ByteOrder,
    window: u32,
    req: Request,
)
    ensures
        ({
            let b = seq![15u8, 0u8] + u16_bytes(order, 2) + u32_bytes(order, window);
            &&& request_in_bounds(order, b)
            &&& parse_error(order, b) is None
            &&& parsed_as(order, b, req) <==> (req matches Request::QueryTree(r)
                && r.window == Window(XID(window)))
        }),
{
    broadcast use group_wire_lengths;

    let b = seq![15u8, 0u8] + u16_bytes(order, 2) + u32_bytes(order, window);
    assert(b.len() == 8);
    assert(b.subrange(2, 4) =~= u16_bytes(order, 2));
    lemma_u16_read(order, b, 2, 2);
    let data = b.subrange(4, 8);
    assert(data.subrange(0, 4) =~= u32_bytes(order, window));
    lemma_u32_read(order, data, 0, window);
}

/// A GetGeometry request (opcode 14) reads as GetGeometry of the drawable it names.
pub proof fn lemma_get_geometry_request_reads_back(
    order: ByteOrder,
    drawable: u32,
    req: Request,
)
    ensures
        ({
            let b = seq![14u8, 0u8] + u16_bytes(order, 2) + u32_bytes(order, drawable);
            &&& request_in_bounds(order, b)
            &&& parse_error(order, b) is None
            &&& parsed_as(order, b, req) <==> (req matches Request::GetGeometry(r)
                && r.drawable == Drawable::Window(Window(XID(drawable))))
        }),
{
    broadcast use group_wire_lengths;

    let b = seq![14u8, 0u8] + u16_bytes(order, 2) + u32_bytes(order, drawable);
    assert(b.len() == 8);
    assert(b.subrange(2, 4) =~= u16_bytes(order, 2));
    lemma_u16_read(order, b, 2, 2);
    let data = b.subrange(4, 8);
    assert(data.subrange(0, 4) =~= u32_bytes(order, drawable));
    lemma_u32_read(order, data, 0, drawable);
}

/// A GetAtomName request (opcode 17) reads as GetAtomName of the atom it names.
pub proof fn lemma_get_atom_name_request_reads_back(
    order: ByteOrder,
    atom: u32,
    req: Request,
)
    ensures
        ({
            let b = seq![17u8, 0u8] + u16_bytes(order, 2) + u32_bytes(order, atom);
            &&& request_in_bounds(order, b)
            &&& parse_error(order, b) is None
            &&& parsed_as(order, b, req) <==> (req matches Request::GetAtomName(r)
                && r.atom == Atom(atom))
        }),
{
    broadcast use group_wire_lengths;

    let b = seq![17u8, 0u8] + u16_bytes(order, 2) + u32_bytes(order, atom);
    assert(b.len() == 8);
    assert(b.subrange(2, 4) =~= u16_bytes(order, 2));
    lemma_u16_read(order, b, 2, 2);
    let data = b.subrange(4, 8);
    assert(data.subrange(0, 4) =~= u32_bytes(order, atom));
    lemma_u32_read(order, data, 0, atom);
}

/// A GetSelectionOwner request (opcode 23) reads as GetSelectionOwner of the selection
/// it names.
pub proof fn lemma_get_selection_owner_request_reads_back(
    order: ByteOrder,
    selection: u32,
    req: Request,
)
    ensures
        ({
            let b = seq![23u8, 0u8] + u16_bytes(order, 2) + u32_bytes(order, selection);
            &&& request_in_bounds(order, b)
            &&& parse_error(order, b) is None
            &&& parsed_as(order, b, req) <==> (req matches Request::GetSelectionOwner(r)
                && r.selection == Atom(selection))
        }),
{
    broadcast use group_wire_lengths;

    let b = seq![23u8, 0u8] + u16_bytes(order, 2) + u32_bytes(order, selection);
    assert(b.len() == 8);
    assert(b.subrange(2, 4) =~= u16_bytes(order, 2));
    lemma_u16_read(order, b, 2, 2);
    let data = b.subrange(4, 8);
    assert(data.subrange(0, 4) =~= u32_bytes(order, selection));
    lemma_u32_read(order, data, 0, selection);
}

/// A FreeGC request (opcode 60) reads as FreeGC of the graphics context it names.
pub proof fn lemma_free_gc_request_reads_back(
    order: ByteOrder,
    gc: u32,
    req: Request,
)
    ensures
        ({
            let b = seq![60u8, 0u8] + u16_bytes(order, 2) + u32_bytes(order, gc);
            &&& request_in_bounds(order, b)
            &&& parse_error(order, b) is None
            &&& parsed_as(order, b, req) <==> (req matches Request::FreeGC(r)
                && r.gc == GContext(XID(gc)))
        }),
{
    broadcast use group_wire_lengths;

    let b = seq![60u8, 0u8] + u16_bytes(order, 2) + u32_bytes(order, gc);
    assert(b.len() == 8);
    assert(b.subrange(2, 4) =~= u16_bytes(order, 2));
    lemma_u16_read(order, b, 2, 2);
    let data = b.subrange(4, 8);
    assert(data.subrange(0, 4) =~= u32_bytes(order, gc));
    lemma_u32_read(order, data, 0, gc);
}

/// A FreePixmap request (opcode 54) reads as FreePixmap of the pixmap it names.
pub proof fn lemma_free_pixmap_request_reads_back(
    order: ByteOrder,
    pixmap: u32,
    req: Request,
)
    ensures
        ({
            let b = seq![54u8, 0u8] + u16_bytes(order, 2) + u32_bytes(order, pixmap);
            &&& request_in_bounds(order, b)
            &&& parse_error(order, b) is None
            &&& parsed_as(order, b, req) <==> (req matches Request::FreePixmap(r)
                && r.pixmap == Pixmap(XID(pixmap)))
        }),
{
    broadcast use group_wire_lengths;

    let b = seq![54u8, 0u8] + u16_bytes(order, 2) + u32_bytes(order, pixmap);
    assert(b.len() == 8);
    assert(b.subrange(2, 4) =~= u16_bytes(order, 2));
    lemma_u16_read(order, b, 2, 2);
    let data = b.subrange(4, 8);
    assert(data.subrange(0, 4) =~= u32_bytes(order, pixmap));
    lemma_u32_read(order, data, 0, pixmap);
}

/// A CloseFont request (opcode 46) reads as CloseFont of the font it names.
pub proof fn lemma_close_font_request_reads_back(
    order: ByteOrder,
    font: u32,
    req: Request,
)
    ensures
        ({
            let b = seq![46u8, 0u8] + u16_bytes(order, 2) + u32_bytes(order, font);
            &&& request_in_bounds(order, b)
            &&& parse_error(order, b) is None
            &&& parsed_as(order, b, req) <==> (req matches Request::CloseFont(r) && r.font == font)
        }),
{
    broadcast use group_wire_lengths;

    let b = seq![46u8, 0u8] + u16_bytes(order, 2) + u32_bytes(order, font);
    assert(b.len() == 8);
    assert(b.subrange(2, 4) =~= u16_bytes(order, 2));
    lemma_u16_read(order, b, 2, 2);
    let data = b.subrange(4, 8);
    assert(data.subrange(0, 4) =~= u32_bytes(order, font));
    lemma_u32_read(order, data, 0, font);
}

/// A QueryFont request (opcode 47) reads as QueryFont of the font it names.
pub proof fn lemma_query_font_request_reads_back(
    order: ByteOrder,
    font: u32,
    req: Request,
)
    ensures
        ({
            let b = seq![47u8, 0u8] + u16_bytes(order, 2) + u32_bytes(order, font);
            &&& request_in_bounds(order, b)
            &&& parse_error(order, b) is None
            &&& parsed_as(order, b, req) <==> (req matches Request::QueryFont(r) && r.font == font)
        }),
{
    broadcast use group_wire_lengths;

    let b = seq![47u8, 0u8] + u16_bytes(order, 2) + u32_bytes(order, font);
    assert(b.len() == 8);
    assert(b.subrange(2, 4) =~= u16_bytes(order, 2));
    lemma_u16_read(order, b, 2, 2);
    let data = b.subrange(4, 8);
    assert(data.subrange(0, 4) =~= u32_bytes(order, font));
    lemma_u32_read(order, data, 0, font);
}

/// A ClearArea request (opcode 61) reads as ClearArea of its window and area, with
/// exposures asked for when the detail byte is not zero.
pub proof fn lemma_clear_area_request_reads_back(
    order: ByteOrder,
    exposures: u8,
    window: u32,
    x: i16,
    y: i16,
    width: u16,
    height: u16,
    req: Request,
)
    ensures
        ({
            let b = seq![61u8, exposures] + u16_bytes(order, 4) + u32_bytes(order, window)
                + i16_bytes(order, x) + i16_bytes(order, y) + u16_bytes(order, width)
                + u16_bytes(order, height);
            &&& request_in_bounds(order, b)
            &&& parse_error(order, b) is None
            &&& parsed_as(order, b, req) <==> (req matches Request::ClearArea(r)
                && r.exposures == (exposures != 0) && r.window == Window(XID(window)) && r.x == x
                && r.y == y && r.width == width && r.height == height)
        }),
{
    broadcast use group_wire_lengths;

    let b = seq![61u8, exposures] + u16_bytes(order, 4) + u32_bytes(order, window)
        + i16_bytes(order, x) + i16_bytes(order, y) + u16_bytes(order, width)
        + u16_bytes(order, height);
    assert(b.len() == 16);
    assert(b.subrange(2, 4) =~= u16_bytes(order, 4));
    lemma_u16_read(order, b, 2, 4);
    let data = b.subrange(4, 16);
    assert(data.subrange(0, 4) =~= u32_bytes(order, window));
    lemma_u32_read(order, data, 0, window);
    assert(data.subrange(4, 6) =~= i16_bytes(order, x));
    lemma_i16_read(order, data, 4, x);
    assert(data.subrange(6, 8) =~= i16_bytes(order, y));
    lemma_i16_read(order, data, 6, y);
    assert(data.subrange(8, 10) =~= u16_bytes(order, width));
    lemma_u16_read(order, data, 8, width);
    assert(data.subrange(10, 12) =~= u16_bytes(order, height));
    lemma_u16_read(order, data, 10, height);
}

/// A CreatePixmap request (opcode 53) reads as CreatePixmap of its depth (the detail
/// byte), pixmap, drawable and size.
pub proof fn lemma_create_pixmap_request_reads_back(
    order: ByteOrder,
    depth: u8,
    pid: u32,
    drawable: u32,
    width: u16,
    height: u16,
    req: Request,
)
    ensures
        ({
            let b = seq![53u8, depth] + u16_bytes(order, 4) + u32_bytes(order, pid)
                + u32_bytes(order, drawable) + u16_bytes(order, width) + u16_bytes(order, height);
            &&& request_in_bounds(order, b)
            &&& parse_error(order, b) is None
            &&& parsed_as(order, b, req) <==> (req matches Request::CreatePixmap(r)
                && r.depth == depth && r.pid == Pixmap(XID(pid))
                && r.drawable == Drawable::Window(Window(XID(drawable))) && r.width == width
                && r.height == height)
        }),
{
    broadcast use group_wire_lengths;

    let b = seq![53u8, depth] + u16_bytes(order, 4) + u32_bytes(order, pid)
        + u32_bytes(order, drawable) + u16_bytes(order, width) + u16_bytes(order, height);
    assert(b.len() == 16);
    assert(b.subrange(2, 4) =~= u16_bytes(order, 4));
    lemma_u16_read(order, b, 2, 4);
    let data = b.subrange(4, 16);
    assert(data.subrange(0, 4) =~= u32_bytes(order, pid));
    lemma_u32_read(order, data, 0, pid);
    assert(data.subrange(4, 8) =~= u32_bytes(order, drawable));
    lemma_u32_read(order, data, 4, drawable);
    assert(data.subrange(8, 10) =~= u16_bytes(order, width));
    lemma_u16_read(order, data, 8, width);
    assert(data.subrange(10, 12) =~= u16_bytes(order, height));
    lemma_u16_read(order, data, 10, height);
}

/// A CopyArea request (opcode 62) reads as CopyArea of its source and destination
/// drawables, graphics context, source and destination positions and size.
pub proof fn lemma_copy_area_request_reads_back(
    order: ByteOrder,
    src: u32,
    dst: u32,
    gc: u32,
    src_x: i16,
    src_y: i16,
    dst_x: i16,
    dst_y: i16,
    width: u16,
    height: u16,
    req: Request,
)
    ensures
        ({
            let b = seq![62u8, 0u8] + u16_bytes(order, 7) + u32_bytes(order, src)
                + u32_bytes(order, dst) + u32_bytes(order, gc) + i16_bytes(order, src_x)
                + i16_bytes(order, src_y) + i16_bytes(order, dst_x) + i16_bytes(order, dst_y)
                + u16_bytes(order, width) + u16_bytes(order, height);
            &&& request_in_bounds(order, b)
            &&& parse_error(order, b) is None
            &&& parsed_as(order, b, req) <==> (req matches Request::CopyArea(r)
                && r.src_drawable == Drawable::Window(Window(XID(src)))
                && r.dst_drawable == Drawable::Window(Window(XID(dst)))
                && r.gc == GContext(XID(gc)) && r.src_x == src_x && r.src_y == src_y
                && r.dst_x == dst_x && r.dst_y == dst_y && r.width == width && r.height == height)
        }),
{
    broadcast use group_wire_lengths;

    let b = seq![62u8, 0u8] + u16_bytes(order, 7) + u32_bytes(order, src) + u32_bytes(order, dst)
        + u32_bytes(order, gc) + i16_bytes(order, src_x) + i16_bytes(order, src_y)
        + i16_bytes(order, dst_x) + i16_bytes(order, dst_y) + u16_bytes(order, width)
        + u16_bytes(order, height);
    assert(b.len() == 28);
    assert(b.subrange(2, 4) =~= u16_bytes(order, 7));
    lemma_u16_read(order, b, 2, 7);
    let data = b.subrange(4, 28);
    assert(data.subrange(0, 4) =~= u32_bytes(order, src));
    lemma_u32_read(order, data, 0, src);
    assert(data.subrange(4, 8) =~= u32_bytes(order, dst));
    lemma_u32_read(order, data, 4, dst);
    assert(data.subrange(8, 12) =~= u32_bytes(order, gc));
    lemma_u32_read(order, data, 8, gc);
    assert(data.subrange(12, 14) =~= i16_bytes(order, src_x));
    lemma_i16_read(order, data, 12, src_x);
    assert(data.subrange(14, 16) =~= i16_bytes(order, src_y));
    lemma_i16_read(order, data, 14, src_y);
    assert(data.subrange(16, 18) =~= i16_bytes(order, dst_x));
    lemma_i16_read(order, data, 16, dst_x);
    assert(data.subrange(18, 20) =~= i16_bytes(order, dst_y));
    lemma_i16_read(order, data, 18, dst_y);
    assert(data.subrange(20, 22) =~= u16_bytes(order, width));
    lemma_u16_read(order, data, 20, width);
    assert(data.subrange(22, 24) =~= u16_bytes(order, height));
    lemma_u16_read(order, data, 22, height);
}

/// A GetProperty request (opcode 20) reads as GetProperty of its window, property,
/// type, offset and length, deleting when the detail byte is not zero.
pub proof fn lemma_get_property_request_reads_back(
    order: ByteOrder,
    delete: u8,
    window: u32,
    property: u32,
    type_: u32,
    long_offset: u32,
    long_length: u32,
    req: Request,
)
    ensures
        ({
            let b = seq![20u8, delete] + u16_bytes(order, 6) + u32_bytes(order, window)
                + u32_bytes(order, property) + u32_bytes(order, type_)
                + u32_bytes(order, long_offset) + u32_bytes(order, long_length);
            &&& request_in_bounds(order, b)
            &&& parse_error(order, b) is None
            &&& parsed_as(order, b, req) <==> (req matches Request::GetProperty(r)
                && r.delete == (delete != 0) && r.window == Window(XID(window))
                && r.property == Atom(property) && r.type_ == Atom(type_)
                && r.long_offset == long_offset && r.long_length == long_length)
        }),
{
    broadcast use group_wire_lengths;

    let b = seq![20u8, delete] + u16_bytes(order, 6) + u32_bytes(order, window)
        + u32_bytes(order, property) + u32_bytes(order, type_) + u32_bytes(order, long_offset)
        + u32_bytes(order, long_length);
    assert(b.len() == 24);
    assert(b.subrange(2, 4) =~= u16_bytes(order, 6));
    lemma_u16_read(order, b, 2, 6);
    let data = b.subrange(4, 24);
    assert(data.subrange(0, 4) =~= u32_bytes(order, window));
    lemma_u32_read(order, data, 0, window);
    assert(data.subrange(4, 8) =~= u32_bytes(order, property));
    lemma_u32_read(order, data, 4, property);
    assert(data.subrange(8, 12) =~= u32_bytes(order, type_));
    lemma_u32_read(order, data, 8, type_);
    assert(data.subrange(12, 16) =~= u32_bytes(order, long_offset));
    lemma_u32_read(order, data, 12, long_offset);
    assert(data.subrange(16, 20) =~= u32_bytes(order, long_length));
    lemma_u32_read(order, data, 16, long_length);
}

/// A SetSelectionOwner request (opcode 22) reads as SetSelectionOwner of its owner,
/// selection and time.
pub proof fn lemma_set_selection_owner_request_reads_back(
    order: ByteOrder,
    owner: u32,
    selection: u32,
    time: u32,
    req: Request,
)
    ensures
        ({
            let b = seq![22u8, 0u8] + u16_bytes(order, 4) + u32_bytes(order, owner)
                + u32_bytes(order, selection) + u32_bytes(order, time);
            &&& request_in_bounds(order, b)
            &&& parse_error(order, b) is None
            &&& parsed_as(order, b, req) <==> (req matches Request::SetSelectionOwner(r)
                && r.owner == Window(XID(owner)) && r.selection == Atom(selection)
                && r.time == time)
        }),
{
    broadcast use group_wire_lengths;

    let b = seq![22u8, 0u8] + u16_bytes(order, 4) + u32_bytes(order, owner)
        + u32_bytes(order, selection) + u32_bytes(order, time);
    assert(b.len() == 16);
    assert(b.subrange(2, 4) =~= u16_bytes(order, 4));
    lemma_u16_read(order, b, 2, 4);
    let data = b.subrange(4, 16);
    assert(data.subrange(0, 4) =~= u32_bytes(order, owner));
    lemma_u32_read(order, data, 0, owner);
    assert(data.subrange(4, 8) =~= u32_bytes(order, selection));
    lemma_u32_read(order, data, 4, selection);
    assert(data.subrange(8, 12) =~= u32_bytes(order, time));
    lemma_u32_read(order, data, 8, time);
}

/// A ConvertSelection request (opcode 24) reads as ConvertSelection of its requestor,
/// selection, target, property and time.
pub proof fn lemma_convert_selection_request_reads_back(
    order: ByteOrder,
    requestor: u32,
    selection: u32,
    target: u32,
    property: u32,
    time: u32,
    req: Request,
)
    ensures
        ({
            let b = seq![24u8, 0u8] + u16_bytes(order, 6) + u32_bytes(order, requestor)
                + u32_bytes(order, selection) + u32_bytes(order, target)
                + u32_bytes(order, property) + u32_bytes(order, time);
            &&& request_in_bounds(order, b)
            &&& parse_error(order, b) is None
            &&& parsed_as(order, b, req) <==> (req matches Request::ConvertSelection(r)
                && r.requestor == Window(XID(requestor)) && r.selection == Atom(selection)
                && r.target == Atom(target) && r.property == Atom(property) && r.time == time)
        }),
{
    broadcast use group_wire_lengths;

    let b = seq![24u8, 0u8] + u16_bytes(order, 6) + u32_bytes(order, requestor)
        + u32_bytes(order, selection) + u32_bytes(order, target) + u32_bytes(order, property)
        + u32_bytes(order, time);
    assert(b.len() == 24);
    assert(b.subrange(2, 4) =~= u16_bytes(order, 6));
    lemma_u16_read(order, b, 2, 6);
    let data = b.subrange(4, 24);
    assert(data.subrange(0, 4) =~= u32_bytes(order, requestor));
    lemma_u32_read(order, data, 0, requestor);
    assert(data.subrange(4, 8) =~= u32_bytes(order, selection));
    lemma_u32_read(order, data, 4, selection);
    assert(data.subrange(8, 12) =~= u32_bytes(order, target));
    lemma_u32_read(order, data, 8, target);
    assert(data.subrange(12, 16) =~= u32_bytes(order, property));
    lemma_u32_read(order, data, 12, property);
    assert(data.subrange(16, 20) =~= u32_bytes(order, time));
    lemma_u32_read(order, data, 16, time);
}

/// A CreateGlyphCursor request (opcode 94) reads as CreateGlyphCursor of its cursor
/// and its source and mask fonts.
pub proof fn lemma_create_glyph_cursor_request_reads_back(
    order: ByteOrder,
    cid: u32,
    source_font: u32,
    mask_font: u32,
    req: Request,
)
    ensures
        ({
            let b = seq![94u8, 0u8] + u16_bytes(order, 8) + u32_bytes(order, cid)
                + u32_bytes(order, source_font) + u32_bytes(order, mask_font) + zeros(16);
            &&& request_in_bounds(order, b)
            &&& parse_error(order, b) is None
            &&& parsed_as(order, b, req) <==> (req matches Request::CreateGlyphCursor(r)
                && r.cid == cid && r.source_font == source_font && r.mask_font == mask_font)
        }),
{
    broadcast use group_wire_lengths;

    let b = seq![94u8, 0u8] + u16_bytes(order, 8) + u32_bytes(order, cid)
        + u32_bytes(order, source_font) + u32_bytes(order, mask_font) + zeros(16);
    assert(b.len() == 32);
    assert(b.subrange(2, 4) =~= u16_bytes(order, 8));
    lemma_u16_read(order, b, 2, 8);
    let data = b.subrange(4, 32);
    assert(data.subrange(0, 4) =~= u32_bytes(order, cid));
    lemma_u32_read(order, data, 0, cid);
    assert(data.subrange(4, 8) =~= u32_bytes(order, source_font));
    lemma_u32_read(order, data, 4, source_font);
    assert(data.subrange(8, 12) =~= u32_bytes(order, mask_font));
    lemma_u32_read(order, data, 8, mask_font);
}

/// A GetImage request (opcode 73) reads as GetImage of its format (the detail byte),
/// drawable, area and plane mask.
pub proof fn lemma_get_image_request_reads_back(
    order: ByteOrder,
    format: u8,
    drawable: u32,
    x: i16,
    y: i16,
    width: u16,
    height: u16,
    plane_mask: u32,
    req: Request,
)
    ensures
        ({
            let b = seq![73u8, format] + u16_bytes(order, 5) + u32_bytes(order, drawable)
                + i16_bytes(order, x) + i16_bytes(order, y) + u16_bytes(order, width)
                + u16_bytes(order, height) + u32_bytes(order, plane_mask);
            &&& request_in_bounds(order, b)
            &&& parse_error(order, b) is None
            &&& parsed_as(order, b, req) <==> (req matches Request::GetImage(r)
                && r.format == format && r.drawable == Drawable::Window(Window(XID(drawable)))
                && r.x == x && r.y == y && r.width == width && r.height == height
                && r.plane_mask == plane_mask)
        }),
{
    broadcast use group_wire_lengths;

    let b = seq![73u8, format] + u16_bytes(order, 5) + u32_bytes(order, drawable)
        + i16_bytes(order, x) + i16_bytes(order, y) + u16_bytes(order, width)
        + u16_bytes(order, height) + u32_bytes(order, plane_mask);
    assert(b.len() == 20);
    assert(b.subrange(2, 4) =~= u16_bytes(order, 5));
    lemma_u16_read(order, b, 2, 5);
    let data = b.subrange(4, 20);
    assert(data.subrange(0, 4) =~= u32_bytes(order, drawable));
    lemma_u32_read(order, data, 0, drawable);
    assert(data.subrange(4, 6) =~= i16_bytes(order, x));
    lemma_i16_read(order, data, 4, x);
    assert(data.subrange(6, 8) =~= i16_bytes(order, y));
    lemma_i16_read(order, data, 6, y);
    assert(data.subrange(8, 10) =~= u16_bytes(order, width));
    lemma_u16_read(order, data, 8, width);
    assert(data.subrange(10, 12) =~= u16_bytes(order, height));
    lemma_u16_read(order, data, 10, height);
    assert(data.subrange(12, 16) =~= u32_bytes(order, plane_mask));
    lemma_u32_read(order, data, 12, plane_mask);
}

/// A CreateGC request (opcode 55) with no values reads as CreateGC of its graphics
/// context and drawable.
pub proof fn lemma_create_gc_request_reads_back(
    order: ByteOrder,
    cid: u32,
    drawable: u32,
    req: Request,
)
    ensures
        ({
            let b = seq![55u8, 0u8] + u16_bytes(order, 4) + u32_bytes(order, cid)
                + u32_bytes(order, drawable) + zeros(4);
            &&& request_in_bounds(order, b)
            &&& parse_error(order, b) is None
            &&& parsed_as(order, b, req) <==> (req matches Request::CreateGC(r)
                && r.cid == GContext(XID(cid))
                && r.drawable == Drawable::Window(Window(XID(drawable))) && r.foreground is None
                && r.background is None && r.line_width is None && r.function is None)
        }),
{
    broadcast use group_wire_lengths;

    let b = seq![55u8, 0u8] + u16_bytes(order, 4) + u32_bytes(order, cid)
        + u32_bytes(order, drawable) + zeros(4);
    assert(b.len() == 16);
    assert(b.subrange(2, 4) =~= u16_bytes(order, 4));
    lemma_u16_read(order, b, 2, 4);
    let data = b.subrange(4, 16);
    assert(data.subrange(0, 4) =~= u32_bytes(order, cid));
    lemma_u32_read(order, data, 0, cid);
    assert(data.subrange(4, 8) =~= u32_bytes(order, drawable));
    lemma_u32_read(order, data, 4, drawable);
}

/// A GetInputFocus request (opcode 43) reads as GetInputFocus.
pub proof fn lemma_input_focus_request_reads_back(
    order: ByteOrder,
    req: Request,
)
    ensures
        ({
            let b = seq![43u8, 0u8] + u16_bytes(order, 1);
            &&& request_in_bounds(order, b)
            &&& parse_error(order, b) is None
            &&& parsed_as(order, b, req) <==> req is GetInputFocus
        }),
{
    broadcast use group_wire_lengths;

    let b = seq![43u8, 0u8] + u16_bytes(order, 1);
    assert(b.len() == 4);
    assert(b.subrange(2, 4) =~= u16_bytes(order, 1));
    lemma_u16_read(order, b, 2, 1);
    let data = b.subrange(4, 4);
}

/// A NoOperation request (opcode 127) reads as NoOperation.
pub proof fn lemma_no_operation_request_reads_back(
    order: ByteOrder,
    req: Request,
)
    ensures
        ({
            let b = seq![127u8, 0u8] + u16_bytes(order, 1);
            &&& request_in_bounds(order, b)
            &&& parse_error(order, b) is None
            &&& parsed_as(order, b, req) <==> req is NoOperation
        }),
{
    broadcast use group_wire_lengths;

    let b = seq![127u8, 0u8] + u16_bytes(order, 1);
    assert(b.len() == 4);
    assert(b.subrange(2, 4) =~= u16_bytes(order, 1));
    lemma_u16_read(order, b, 2, 1);
    let data = b.subrange(4, 4);
}

/// A PolySegment request (opcode 66) of one segment reads as PolySegment of that
/// segment, on its drawable and graphics context.
pub proof fn lemma_poly_segment_request_reads_back(
    order: ByteOrder,
    drawable: u32,
    gc: u32,
    x1: i16,
    y1: i16,
    x2: i16,
    y2: i16,
    req: Request,
)
    ensures
        ({
            let b = seq![66u8, 0u8] + u16_bytes(order, 5) + u32_bytes(order, drawable)
                + u32_bytes(order, gc) + i16_bytes(order, x1) + i16_bytes(order, y1)
                + i16_bytes(order, x2) + i16_bytes(order, y2);
            &&& request_in_bounds(order, b)
            &&& parse_error(order, b) is None
            &&& parsed_as(order, b, req) <==> (req matches Request::PolySegment(r)
                && r.drawable == Drawable::Window(Window(XID(drawable)))
                && r.gc == GContext(XID(gc)) && r.segments@ == seq![Segment { x1, y1, x2, y2 }])
        }),
{
    broadcast use group_wire_lengths;

    let b = seq![66u8, 0u8] + u16_bytes(order, 5) + u32_bytes(order, drawable)
        + u32_bytes(order, gc) + i16_bytes(order, x1) + i16_bytes(order, y1)
        + i16_bytes(order, x2) + i16_bytes(order, y2);
    assert(b.len() == 20);
    assert(b.subrange(2, 4) =~= u16_bytes(order, 5));
    lemma_u16_read(order, b, 2, 5);
    let data = b.subrange(4, 20);
    assert(data.subrange(0, 4) =~= u32_bytes(order, drawable));
    lemma_u32_read(order, data, 0, drawable);
    assert(data.subrange(4, 8) =~= u32_bytes(order, gc));
    lemma_u32_read(order, data, 4, gc);
    assert(data.subrange(8, 10) =~= i16_bytes(order, x1));
    lemma_i16_read(order, data, 8, x1);
    assert(data.subrange(10, 12) =~= i16_bytes(order, y1));
    lemma_i16_read(order, data, 10, y1);
    assert(data.subrange(12, 14) =~= i16_bytes(order, x2));
    lemma_i16_read(order, data, 12, x2);
    assert(data.subrange(14, 16) =~= i16_bytes(order, y2));
    lemma_i16_read(order, data, 14, y2);
    assert(segments_from(order, data, 8) =~= seq![Segment { x1, y1, x2, y2 }]);
}

/// A PolyRectangle request (opcode 67) of one rectangle reads as PolyRectangle of that
/// rectangle, on its drawable and graphics context.
pub proof fn lemma_poly_rectangle_request_reads_back(
    order: ByteOrder,
    drawable: u32,
    gc: u32,
    x: i16,
    y: i16,
    width: u16,
    height: u16,
    req: Request,
)
    ensures
        ({
            let b = seq![67u8, 0u8] + u16_bytes(order, 5) + u32_bytes(order, drawable)
                + u32_bytes(order, gc) + i16_bytes(order, x) + i16_bytes(order, y)
                + u16_bytes(order, width) + u16_bytes(order, height);
            &&& request_in_bounds(order, b)
            &&& parse_error(order, b) is None
            &&& parsed_as(order, b, req) <==> (req matches Request::PolyRectangle(r)
                && r.drawable == Drawable::Window(Window(XID(drawable)))
                && r.gc == GContext(XID(gc))
                && r.rectangles@ == seq![Rectangle { x, y, width, height }])
        }),
{
    broadcast use group_wire_lengths;

    let b = seq![67u8, 0u8] + u16_bytes(order, 5) + u32_bytes(order, drawable)
        + u32_bytes(order, gc) + i16_bytes(order, x) + i16_bytes(order, y)
        + u16_bytes(order, width) + u16_bytes(order, height);
    assert(b.len() == 20);
    assert(b.subrange(2, 4) =~= u16_bytes(order, 5));
    lemma_u16_read(order, b, 2, 5);
    let data = b.subrange(4, 20);
    assert(data.subrange(0, 4) =~= u32_bytes(order, drawable));
    lemma_u32_read(order, data, 0, drawable);
    assert(data.subrange(4, 8) =~= u32_bytes(order, gc));
    lemma_u32_read(order, data, 4, gc);
    assert(data.subrange(8, 10) =~= i16_bytes(order, x));
    lemma_i16_read(order, data, 8, x);
    assert(data.subrange(10, 12) =~= i16_bytes(order, y));
    lemma_i16_read(order, data, 10, y);
    assert(data.subrange(12, 14) =~= u16_bytes(order, width));
    lemma_u16_read(order, data, 12, width);
    assert(data.subrange(14, 16) =~= u16_bytes(order, height));
    lemma_u16_read(order, data, 14, height);
    assert(rects_from(order, data, 8) =~= seq![Rectangle { x, y, width, height }]);
}

/// A PolyFillRectangle request (opcode 70) of one rectangle reads as PolyFillRectangle of that
/// rectangle, on its drawable and graphics context.
pub proof fn lemma_poly_fill_rectangle_request_reads_back(
    order: ByteOrder,
    drawable: u32,
    gc: u32,
    x: i16,
    y: i16,
    width: u16,
    height: u16,
    req: Request,
)
    ensures
        ({
            let b = seq![70u8, 0u8] + u16_bytes(order, 5) + u32_bytes(order, drawable)
                + u32_bytes(order, gc) + i16_bytes(order, x) + i16_bytes(order, y)
                + u16_bytes(order, width) + u16_bytes(order, height);
            &&& request_in_bounds(order, b)
            &&& parse_error(order, b) is None
            &&& parsed_as(order, b, req) <==> (req matches Request::PolyFillRectangle(r)
                && r.drawable == Drawable::Window(Window(XID(drawable)))
                && r.gc == GContext(XID(gc))
                && r.rectangles@ == seq![Rectangle { x, y, width, height }])
        }),
{
    broadcast use group_wire_lengths;

    let b = seq![70u8, 0u8] + u16_bytes(order, 5) + u32_bytes(order, drawable)
        + u32_bytes(order, gc) + i16_bytes(order, x) + i16_bytes(order, y)
        + u16_bytes(order, width) + u16_bytes(order, height);
    assert(b.len() == 20);
    assert(b.subrange(2, 4) =~= u16_bytes(order, 5));
    lemma_u16_read(order, b, 2, 5);
    let data = b.subrange(4, 20);
    assert(data.subrange(0, 4) =~= u32_bytes(order, drawable));
    lemma_u32_read(order, data, 0, drawable);
    assert(data.subrange(4, 8) =~= u32_bytes(order, gc));
    lemma_u32_read(order, data, 4, gc);
    assert(data.subrange(8, 10) =~= i16_bytes(order, x));
    lemma_i16_read(order, data, 8, x);
    assert(data.subrange(10, 12) =~= i16_bytes(order, y));
    lemma_i16_read(order, data, 10, y);
    assert(data.subrange(12, 14) =~= u16_bytes(order, width));
    lemma_u16_read(order, data, 12, width);
    assert(data.subrange(14, 16) =~= u16_bytes(order, height));
    lemma_u16_read(order, data, 14, height);
    assert(rects_from(order, data, 8) =~= seq![Rectangle { x, y, width, height }]);
}

/// A PolyPoint request (opcode 64) of one point reads as PolyPoint of that point, in
/// the coordinate mode of its detail byte, on its drawable and graphics context.
pub proof fn lemma_poly_point_request_reads_back(
    order: ByteOrder,
    mode: u8,
    drawable: u32,
    gc: u32,
    x: i16,
    y: i16,
    req: Request,
)
    ensures
        ({
            let b = seq![64u8, mode] + u16_bytes(order, 4) + u32_bytes(order, drawable)
                + u32_bytes(order, gc) + i16_bytes(order, x) + i16_bytes(order, y);
            &&& request_in_bounds(order, b)
            &&& parse_error(order, b) is None
            &&& parsed_as(order, b, req) <==> (req matches Request::PolyPoint(r)
                && r.coordinate_mode == mode
                && r.drawable == Drawable::Window(Window(XID(drawable)))
                && r.gc == GContext(XID(gc)) && r.points@ == seq![Point { x, y }])
        }),
{
    broadcast use group_wire_lengths;

    let b = seq![64u8, mode] + u16_bytes(order, 4) + u32_bytes(order, drawable)
        + u32_bytes(order, gc) + i16_bytes(order, x) + i16_bytes(order, y);
    assert(b.len() == 16);
    assert(b.subrange(2, 4) =~= u16_bytes(order, 4));
    lemma_u16_read(order, b, 2, 4);
    let data = b.subrange(4, 16);
    assert(data.subrange(0, 4) =~= u32_bytes(order, drawable));
    lemma_u32_read(order, data, 0, drawable);
    assert(data.subrange(4, 8) =~= u32_bytes(order, gc));
    lemma_u32_read(order, data, 4, gc);
    assert(data.subrange(8, 10) =~= i16_bytes(order, x));
    lemma_i16_read(order, data, 8, x);
    assert(data.subrange(10, 12) =~= i16_bytes(order, y));
    lemma_i16_read(order, data, 10, y);
    assert(points_from(order, data, 8) =~= seq![Point { x, y }]);
}

/// A PolyLine request (opcode 65) of one point reads as PolyLine of that point, in
/// the coordinate mode of its detail byte, on its drawable and graphics context.
pub proof fn lemma_poly_line_request_reads_back(
    order: ByteOrder,
    mode: u8,
    drawable: u32,
    gc: u32,
    x: i16,
    y: i16,
    req: Request,
)
    ensures
        ({
            let b = seq![65u8, mode] + u16_bytes(order, 4) + u32_bytes(order, drawable)
                + u32_bytes(order, gc) + i16_bytes(order, x) + i16_bytes(order, y);
            &&& request_in_bounds(order, b)
            &&& parse_error(order, b) is None
            &&& parsed_as(order, b, req) <==> (req matches Request::PolyLine(r)
                && r.coordinate_mode == mode
                && r.drawable == Drawable::Window(Window(XID(drawable)))
                && r.gc == GContext(XID(gc)) && r.points@ == seq![Point { x, y }])
        }),
{
    broadcast use group_wire_lengths;

    let b = seq![65u8, mode] + u16_bytes(order, 4) + u32_bytes(order, drawable)
        + u32_bytes(order, gc) + i16_bytes(order, x) + i16_bytes(order, y);
    assert(b.len() == 16);
    assert(b.subrange(2, 4) =~= u16_bytes(order, 4));
    lemma_u16_read(order, b, 2, 4);
    let data = b.subrange(4, 16);
    assert(data.subrange(0, 4) =~= u32_bytes(order, drawable));
    lemma_u32_read(order, data, 0, drawable);
    assert(data.subrange(4, 8) =~= u32_bytes(order, gc));
    lemma_u32_read(order, data, 4, gc);
    assert(data.subrange(8, 10) =~= i16_bytes(order, x));
    lemma_i16_read(order, data, 8, x);
    assert(data.subrange(10, 12) =~= i16_bytes(order, y));
    lemma_i16_read(order, data, 10, y);
    assert(points_from(order, data, 8) =~= seq![Point { x, y }]);
}

/// A PolyArc request (opcode 68) of one arc reads as PolyArc of that arc, on its
/// drawable and graphics context.
pub proof fn lemma_poly_arc_request_reads_back(
    order: ByteOrder,
    drawable: u32,
    gc: u32,
    x: i16,
    y: i16,
    width: u16,
    height: u16,
    angle1: i16,
    angle2: i16,
    req: Request,
)
    ensures
        ({
            let b = seq![68u8, 0u8] + u16_bytes(order, 6) + u32_bytes(order, drawable)
                + u32_bytes(order, gc) + i16_bytes(order, x) + i16_bytes(order, y)
                + u16_bytes(order, width) + u16_bytes(order, height) + i16_bytes(order, angle1)
                + i16_bytes(order, angle2);
            &&& request_in_bounds(order, b)
            &&& parse_error(order, b) is None
            &&& parsed_as(order, b, req) <==> (req matches Request::PolyArc(r)
                && r.drawable == Drawable::Window(Window(XID(drawable)))
                && r.gc == GContext(XID(gc))
                && r.arcs@ == seq![Arc { x, y, width, height, angle1, angle2 }])
        }),
{
    broadcast use group_wire_lengths;

    let b = seq![68u8, 0u8] + u16_bytes(order, 6) + u32_bytes(order, drawable)
        + u32_bytes(order, gc) + i16_bytes(order, x) + i16_bytes(order, y)
        + u16_bytes(order, width) + u16_bytes(order, height) + i16_bytes(order, angle1)
        + i16_bytes(order, angle2);
    assert(b.len() == 24);
    assert(b.subrange(2, 4) =~= u16_bytes(order, 6));
    lemma_u16_read(order, b, 2, 6);
    let data = b.subrange(4, 24);
    assert(data.subrange(0, 4) =~= u32_bytes(order, drawable));
    lemma_u32_read(order, data, 0, drawable);
    assert(data.subrange(4, 8) =~= u32_bytes(order, gc));
    lemma_u32_read(order, data, 4, gc);
    assert(data.subrange(8, 10) =~= i16_bytes(order, x));
    lemma_i16_read(order, data, 8, x);
    assert(data.subrange(10, 12) =~= i16_bytes(order, y));
    lemma_i16_read(order, data, 10, y);
    assert(data.subrange(12, 14) =~= u16_bytes(order, width));
    lemma_u16_read(order, data, 12, width);
    assert(data.subrange(14, 16) =~= u16_bytes(order, height));
    lemma_u16_read(order, data, 14, height);
    assert(data.subrange(16, 18) =~= i16_bytes(order, angle1));
    lemma_i16_read(order, data, 16, angle1);
    assert(data.subrange(18, 20) =~= i16_bytes(order, angle2));
    lemma_i16_read(order, data, 18, angle2);
    assert(arcs_from(order, data, 8) =~= seq![Arc { x, y, width, height, angle1, angle2 }]);
}

/// A PolyFillArc request (opcode 71) of one arc reads as PolyFillArc of that arc, on its
/// drawable and graphics context.
pub proof fn lemma_poly_fill_arc_request_reads_back(
    order: ByteOrder,
    drawable: u32,
    gc: u32,
    x: i16,
    y: i16,
    width: u16,
    height: u16,
    angle1: i16,
    angle2: i16,
    req: Request,
)
    ensures
        ({
            let b = seq![71u8, 0u8] + u16_bytes(order, 6) + u32_bytes(order, drawable)
                + u32_bytes(order, gc) + i16_bytes(order, x) + i16_bytes(order, y)
                + u16_bytes(order, width) + u16_bytes(order, height) + i16_bytes(order, angle1)
                + i16_bytes(order, angle2);
            &&& request_in_bounds(order, b)
            &&& parse_error(order, b) is None
            &&& parsed_as(order, b, req) <==> (req matches Request::PolyFillArc(r)
                && r.drawable == Drawable::Window(Window(XID(drawable)))
                && r.gc == GContext(XID(gc))
                && r.arcs@ == seq![Arc { x, y, width, height, angle1, angle2 }])
        }),
{
    broadcast use group_wire_lengths;

    let b = seq![71u8, 0u8] + u16_bytes(order, 6) + u32_bytes(order, drawable)
        + u32_bytes(order, gc) + i16_bytes(order, x) + i16_bytes(order, y)
        + u16_bytes(order, width) + u16_bytes(order, height) + i16_bytes(order, angle1)
        + i16_bytes(order, angle2);
    assert(b.len() == 24);
    assert(b.subrange(2, 4) =~= u16_bytes(order, 6));
    lemma_u16_read(order, b, 2, 6);
    let data = b.subrange(4, 24);
    assert(data.subrange(0, 4) =~= u32_bytes(order, drawable));
    lemma_u32_read(order, data, 0, drawable);
    assert(data.subrange(4, 8) =~= u32_bytes(order, gc));
    lemma_u32_read(order, data, 4, gc);
    assert(data.subrange(8, 10) =~= i16_bytes(order, x));
    lemma_i16_read(order, data, 8, x);
    assert(data.subrange(10, 12) =~= i16_bytes(order, y));
    lemma_i16_read(order, data, 10, y);
    assert(data.subrange(12, 14) =~= u16_bytes(order, width));
    lemma_u16_read(order, data, 12, width);
    assert(data.subrange(14, 16) =~= u16_bytes(order, height));
    lemma_u16_read(order, data, 14, height);
    assert(data.subrange(16, 18) =~= i16_bytes(order, angle1));
    lemma_i16_read(order, data, 16, angle1);
    assert(data.subrange(18, 20) =~= i16_bytes(order, angle2));
    lemma_i16_read(order, data, 18, angle2);
    assert(arcs_from(order, data, 8) =~= seq![Arc { x, y, width, height, angle1, angle2 }]);
}

/// A FillPoly request (opcode 69) of one point, with zeros where the coordinate mode
/// and the unused bytes stand, reads as FillPoly of that point with the shape of its
/// detail byte and coordinate mode 0, on its drawable and graphics context.
pub proof fn lemma_fill_poly_request_reads_back(
    order: ByteOrder,
    shape: u8,
    drawable: u32,
    gc: u32,
    x: i16,
    y: i16,
    req: Request,
)
    ensures
        ({
            let b = seq![69u8, shape] + u16_bytes(order, 5) + u32_bytes(order, drawable)
                + u32_bytes(order, gc) + zeros(4) + i16_bytes(order, x) + i16_bytes(order, y);
            &&& request_in_bounds(order, b)
            &&& parse_error(order, b) is None
            &&& parsed_as(order, b, req) <==> (req matches Request::FillPoly(r)
                && r.shape == shape && r.coordinate_mode == 0
                && r.drawable == Drawable::Window(Window(XID(drawable)))
                && r.gc == GContext(XID(gc)) && r.points@ == seq![Point { x, y }])
        }),
{
    broadcast use group_wire_lengths;

    let b = seq![69u8, shape] + u16_bytes(order, 5) + u32_bytes(order, drawable)
        + u32_bytes(order, gc) + zeros(4) + i16_bytes(order, x) + i16_bytes(order, y);
    assert(b.len() == 20);
    assert(b.subrange(2, 4) =~= u16_bytes(order, 5));
    lemma_u16_read(order, b, 2, 5);
    let data = b.subrange(4, 20);
    assert(data.subrange(0, 4) =~= u32_bytes(order, drawable));
    lemma_u32_read(order, data, 0, drawable);
    assert(data.subrange(4, 8) =~= u32_bytes(order, gc));
    lemma_u32_read(order, data, 4, gc);
    assert(data.subrange(12, 14) =~= i16_bytes(order, x));
    lemma_i16_read(order, data, 12, x);
    assert(data.subrange(14, 16) =~= i16_bytes(order, y));
    lemma_i16_read(order, data, 14, y);
    assert(points_from(order, data, 12) =~= seq![Point { x, y }]);
}

/// An InternAtom request (opcode 16) for the atom `name` reads as InternAtom of that
/// name, asking only for an existing atom when the detail byte is not zero.
pub proof fn lemma_intern_atom_request_reads_back(
    order: ByteOrder,
    only_if_exists: u8,
    name: Seq<u8>,
    req: Request,
)
    requires
        name.len() <= 65535,
    ensures
        ({
            let b = seq![16u8, only_if_exists] + u16_bytes(order, ((8 + name.len()
                + spec_pad(name.len() as int)) / 4) as u16) + u16_bytes(order, name.len() as u16)
                + zeros(2) + name + zeros(spec_pad(name.len() as int) as nat);
            &&& request_in_bounds(order, b)
            &&& parse_error(order, b) is None
            &&& parsed_as(order, b, req) <==> (req matches Request::InternAtom(r)
                && r.only_if_exists == (only_if_exists != 0) && r.name@ == text_of(name))
        }),
{
    broadcast use group_wire_lengths;

    let n = name.len() as int;
    let p = spec_pad(n);
    assert(0 <= p < 4 && (n + p) % 4 == 0);
    let units = ((8 + name.len() + spec_pad(name.len() as int)) / 4) as u16;
    let b = seq![16u8, only_if_exists] + u16_bytes(order, ((8 + name.len()
        + spec_pad(name.len() as int)) / 4) as u16) + u16_bytes(order, name.len() as u16)
        + zeros(2) + name + zeros(spec_pad(name.len() as int) as nat);
    assert(b.len() == 8 + n + p);
    assert(units * 4 == b.len());
    assert(b.subrange(2, 4) =~= u16_bytes(order, units));
    lemma_u16_read(order, b, 2, units);
    let data = b.subrange(4, b.len() as int);
    assert(data.subrange(0, 2) =~= u16_bytes(order, name.len() as u16));
    lemma_u16_read(order, data, 0, name.len() as u16);
    assert(data.subrange(4, 4 + n) =~= name);
}

/// A QueryExtension request (opcode 98) for the extension `name` reads as
/// QueryExtension of that name.
pub proof fn lemma_query_extension_request_reads_back(
    order: ByteOrder,
    name: Seq<u8>,
    req: Request,
)
    requires
        name.len() <= 65535,
    ensures
        ({
            let b = seq![98u8, 0u8] + u16_bytes(order, ((8 + name.len()
                + spec_pad(name.len() as int)) / 4) as u16) + u16_bytes(order, name.len() as u16)
                + zeros(2) + name + zeros(spec_pad(name.len() as int) as nat);
            &&& request_in_bounds(order, b)
            &&& parse_error(order, b) is None
            &&& parsed_as(order, b, req) <==> (req matches Request::QueryExtension(r)
                && r.name@ == text_of(name))
        }),
{
    broadcast use group_wire_lengths;

    let n = name.len() as int;
    let p = spec_pad(n);
    assert(0 <= p < 4 && (n + p) % 4 == 0);
    let units = ((8 + name.len() + spec_pad(name.len() as int)) / 4) as u16;
    let b = seq![98u8, 0u8] + u16_bytes(order, ((8 + name.len()
        + spec_pad(name.len() as int)) / 4) as u16) + u16_bytes(order, name.len() as u16)
        + zeros(2) + name + zeros(spec_pad(name.len() as int) as nat);
    assert(b.len() == 8 + n + p);
    assert(units * 4 == b.len());
    assert(b.subrange(2, 4) =~= u16_bytes(order, units));
    lemma_u16_read(order, b, 2, units);
    let data = b.subrange(4, b.len() as int);
    assert(data.subrange(0, 2) =~= u16_bytes(order, name.len() as u16));
    lemma_u16_read(order, data, 0, name.len() as u16);
    assert(data.subrange(4, 4 + n) =~= name);
}

/// An OpenFont request (opcode 45) for the font `fid` named `name` reads as OpenFont
/// of that font and name.
pub proof fn lemma_open_font_request_reads_back(
    order: ByteOrder,
    fid: u32,
    name: Seq<u8>,
    req: Request,
)
    requires
        name.len() <= 65535,
    ensures
        ({
            let b = seq![45u8, 0u8] + u16_bytes(order, ((12 + name.len()
                + spec_pad(name.len() as int)) / 4) as u16) + u32_bytes(order, fid)
                + u16_bytes(order, name.len() as u16) + zeros(2) + name
                + zeros(spec_pad(name.len() as int) as nat);
            &&& request_in_bounds(order, b)
            &&& parse_error(order, b) is None
            &&& parsed_as(order, b, req) <==> (req matches Request::OpenFont(r) && r.fid == fid
                && r.name@ == text_of(name))
        }),
{
    broadcast use group_wire_lengths;

    let n = name.len() as int;
    let p = spec_pad(n);
    assert(0 <= p < 4 && (n + p) % 4 == 0);
    let units = ((12 + name.len() + spec_pad(name.len() as int)) / 4) as u16;
    let b = seq![45u8, 0u8] + u16_bytes(order, ((12 + name.len()
        + spec_pad(name.len() as int)) / 4) as u16) + u32_bytes(order, fid)
        + u16_bytes(order, name.len() as u16) + zeros(2) + name
        + zeros(spec_pad(name.len() as int) as nat);
    assert(b.len() == 12 + n + p);
    assert(units * 4 == b.len());
    assert(b.subrange(2, 4) =~= u16_bytes(order, units));
    lemma_u16_read(order, b, 2, units);
    let data = b.subrange(4, b.len() as int);
    assert(data.subrange(0, 4) =~= u32_bytes(order, fid));
    lemma_u32_read(order, data, 0, fid);
    assert(data.subrange(4, 6) =~= u16_bytes(order, name.len() as u16));
    lemma_u16_read(order, data, 4, name.len() as u16);
    assert(data.subrange(8, 8 + n) =~= name);
}

/// An AllocNamedColor request (opcode 85) for the color `name` in `colormap` reads as
/// AllocNamedColor of that colormap and name.
pub proof fn lemma_alloc_named_color_request_reads_back(
    order: ByteOrder,
    colormap: u32,
    name: Seq<u8>,
    req: Request,
)
    requires
        name.len() <= 65535,
    ensures
        ({
            let b = seq![85u8, 0u8] + u16_bytes(order, ((12 + name.len()
                + spec_pad(name.len() as int)) / 4) as u16) + u32_bytes(order, colormap)
                + u16_bytes(order, name.len() as u16) + zeros(2) + name
                + zeros(spec_pad(name.len() as int) as nat);
            &&& request_in_bounds(order, b)
            &&& parse_error(order, b) is None
            &&& parsed_as(order, b, req) <==> (req matches Request::AllocNamedColor(r)
                && r.colormap == colormap && r.name@ == text_of(name))
        }),
{
    broadcast use group_wire_lengths;

    let n = name.len() as int;
    let p = spec_pad(n);
    assert(0 <= p < 4 && (n + p) % 4 == 0);
    let units = ((12 + name.len() + spec_pad(name.len() as int)) / 4) as u16;
    let b = seq![85u8, 0u8] + u16_bytes(order, ((12 + name.len()
        + spec_pad(name.len() as int)) / 4) as u16) + u32_bytes(order, colormap)
        + u16_bytes(order, name.len() as u16) + zeros(2) + name
        + zeros(spec_pad(name.len() as int) as nat);
    assert(b.len() == 12 + n + p);
    assert(units * 4 == b.len());
    assert(b.subrange(2, 4) =~= u16_bytes(order, units));
    lemma_u16_read(order, b, 2, units);
    let data = b.subrange(4, b.len() as int);
    assert(data.subrange(0, 4) =~= u32_bytes(order, colormap));
    lemma_u32_read(order, data, 0, colormap);
    assert(data.subrange(4, 6) =~= u16_bytes(order, name.len() as u16));
    lemma_u16_read(order, data, 4, name.len() as u16);
    assert(data.subrange(8, 8 + n) =~= name);
}

/// An ImageText8 request (opcode 76) of the string `text` (its length in the detail
/// byte) reads as ImageText8 of that string at its position, on its drawable and
/// graphics context.
pub proof fn lemma_image_text8_request_reads_back(
    order: ByteOrder,
    drawable: u32,
    gc: u32,
    x: i16,
    y: i16,
    text: Seq<u8>,
    req: Request,
)
    requires
        text.len() <= 255,
    ensures
        ({
            let b = seq![76u8, text.len() as u8] + u16_bytes(order, ((16 + text.len()
                + spec_pad(text.len() as int)) / 4) as u16) + u32_bytes(order, drawable)
                + u32_bytes(order, gc) + i16_bytes(order, x) + i16_bytes(order, y) + text
                + zeros(spec_pad(text.len() as int) as nat);
            &&& request_in_bounds(order, b)
            &&& parse_error(order, b) is None
            &&& parsed_as(order, b, req) <==> (req matches Request::ImageText8(r)
                && r.drawable == Drawable::Window(Window(XID(drawable)))
                && r.gc == GContext(XID(gc)) && r.x == x && r.y == y
                && r.string@ == text_of(text))
        }),
{
    broadcast use group_wire_lengths;

    let n = text.len() as int;
    let p = spec_pad(n);
    assert(0 <= p < 4 && (n + p) % 4 == 0);
    let units = ((16 + text.len() + spec_pad(text.len() as int)) / 4) as u16;
    let b = seq![76u8, text.len() as u8] + u16_bytes(order, ((16 + text.len()
        + spec_pad(text.len() as int)) / 4) as u16) + u32_bytes(order, drawable)
        + u32_bytes(order, gc) + i16_bytes(order, x) + i16_bytes(order, y) + text
        + zeros(spec_pad(text.len() as int) as nat);
    assert(b.len() == 16 + n + p);
    assert(units * 4 == b.len());
    assert(b.subrange(2, 4) =~= u16_bytes(order, units));
    lemma_u16_read(order, b, 2, units);
    let data = b.subrange(4, b.len() as int);
    assert(data.subrange(0, 4) =~= u32_bytes(order, drawable));
    lemma_u32_read(order, data, 0, drawable);
    assert(data.subrange(4, 8) =~= u32_bytes(order, gc));
    lemma_u32_read(order, data, 4, gc);
    assert(data.subrange(8, 10) =~= i16_bytes(order, x));
    lemma_i16_read(order, data, 8, x);
    assert(data.subrange(10, 12) =~= i16_bytes(order, y));
    lemma_i16_read(order, data, 10, y);
    assert(data.subrange(12, 12 + n) =~= text);
}

/// A ChangeProperty request (opcode 18) of the value `value` reads as ChangeProperty
/// of its window, property, type and format with that value, in the mode of its
/// detail byte.
#[verifier::rlimit(40)]
pub proof fn lemma_change_property_request_reads_back(
    order: ByteOrder,
    mode: u8,
    window: u32,
    property: u32,
    type_: u32,
    format: u8,
    value: Seq<u8>,
    req: Request,
)
    requires
        value.len() <= 65000,
    ensures
        ({
            let b = seq![18u8, mode] + u16_bytes(order, ((24 + value.len()
                + spec_pad(value.len() as int)) / 4) as u16) + u32_bytes(order, window)
                + u32_bytes(order, property) + u32_bytes(order, type_) + seq![format] + zeros(3)
                + u32_bytes(order, value.len() as u32) + value
                + zeros(spec_pad(value.len() as int) as nat);
            &&& request_in_bounds(order, b)
            &&& parse_error(order, b) is None
            &&& parsed_as(order, b, req) <==> (req matches Request::ChangeProperty(r)
                && r.mode == mode && r.window == Window(XID(window))
                && r.property == Atom(property) && r.type_ == Atom(type_) && r.format == format
                && r.data@ == value)
        }),
{
    broadcast use group_wire_lengths;

    let n = value.len() as int;
    let p = spec_pad(n);
    assert(0 <= p < 4 && (n + p) % 4 == 0);
    let units = ((24 + value.len() + spec_pad(value.len() as int)) / 4) as u16;
    let b = seq![18u8, mode] + u16_bytes(order, ((24 + value.len()
        + spec_pad(value.len() as int)) / 4) as u16) + u32_bytes(order, window)
        + u32_bytes(order, property) + u32_bytes(order, type_) + seq![format] + zeros(3)
        + u32_bytes(order, value.len() as u32) + value
        + zeros(spec_pad(value.len() as int) as nat);
    assert(b.len() == 24 + n + p);
    assert(units * 4 == b.len());
    assert(b.subrange(2, 4) =~= u16_bytes(order, units));
    lemma_u16_read(order, b, 2, units);
    let data = b.subrange(4, b.len() as int);
    assert(data.subrange(0, 4) =~= u32_bytes(order, window));
    lemma_u32_read(order, data, 0, window);
    assert(data.subrange(4, 8) =~= u32_bytes(order, property));
    lemma_u32_read(order, data, 4, property);
    assert(data.subrange(8, 12) =~= u32_bytes(order, type_));
    lemma_u32_read(order, data, 8, type_);
    assert(data[12] == format);
    assert(data.subrange(16, 20) =~= u32_bytes(order, value.len() as u32));
    lemma_u32_read(order, data, 16, value.len() as u32);
    assert(data.subrange(20, 20 + n) =~= value);
}

/// A PutImage request (opcode 72) of the image bytes `image` reads as PutImage of its
/// format (the detail byte), drawable, graphics context, size, destination, left pad
/// and depth, with the image and the padding after it as data.
pub proof fn lemma_put_image_request_reads_back(
    order: ByteOrder,
    format: u8,
    drawable: u32,
    gc: u32,
    width: u16,
    height: u16,
    dst_x: i16,
    dst_y: i16,
    left_pad: u8,
    depth: u8,
    image: Seq<u8>,
    req: Request,
)
    requires
        image.len() <= 65000,
    ensures
        ({
            let b = seq![72u8, format] + u16_bytes(order, ((24 + image.len()
                + spec_pad(image.len() as int)) / 4) as u16) + u32_bytes(order, drawable)
                + u32_bytes(order, gc) + u16_bytes(order, width) + u16_bytes(order, height)
                + i16_bytes(order, dst_x) + i16_bytes(order, dst_y) + seq![left_pad] + seq![depth]
                + zeros(2) + image + zeros(spec_pad(image.len() as int) as nat);
            &&& request_in_bounds(order, b)
            &&& parse_error(order, b) is None
            &&& parsed_as(order, b, req) <==> (req matches Request::PutImage(r)
                && r.format == format && r.drawable == Drawable::Window(Window(XID(drawable)))
                && r.gc == GContext(XID(gc)) && r.width == width && r.height == height
                && r.dst_x == dst_x && r.dst_y == dst_y && r.left_pad == left_pad
                && r.depth == depth && r.data@ == image
                + zeros(spec_pad(image.len() as int) as nat))
        }),
{
    broadcast use group_wire_lengths;

    let n = image.len() as int;
    let p = spec_pad(n);
    assert(0 <= p < 4 && (n + p) % 4 == 0);
    let units = ((24 + image.len() + spec_pad(image.len() as int)) / 4) as u16;
    let b = seq![72u8, format] + u16_bytes(order, ((24 + image.len()
        + spec_pad(image.len() as int)) / 4) as u16) + u32_bytes(order, drawable)
        + u32_bytes(order, gc) + u16_bytes(order, width) + u16_bytes(order, height)
        + i16_bytes(order, dst_x) + i16_bytes(order, dst_y) + seq![left_pad] + seq![depth]
        + zeros(2) + image + zeros(spec_pad(image.len() as int) as nat);
    assert(b.len() == 24 + n + p);
    assert(units * 4 == b.len());
    assert(b.subrange(2, 4) =~= u16_bytes(order, units));
    lemma_u16_read(order, b, 2, units);
    let data = b.subrange(4, b.len() as int);
    assert(data.subrange(0, 4) =~= u32_bytes(order, drawable));
    lemma_u32_read(order, data, 0, drawable);
    assert(data.subrange(4, 8) =~= u32_bytes(order, gc));
    lemma_u32_read(order, data, 4, gc);
    assert(data.subrange(8, 10) =~= u16_bytes(order, width));
    lemma_u16_read(order, data, 8, width);
    assert(data.subrange(10, 12) =~= u16_bytes(order, height));
    lemma_u16_read(order, data, 10, height);
    assert(data.subrange(12, 14) =~= i16_bytes(order, dst_x));
    lemma_i16_read(order, data, 12, dst_x);
    assert(data.subrange(14, 16) =~= i16_bytes(order, dst_y));
    lemma_i16_read(order, data, 14, dst_y);
    assert(data[16] == left_pad);
    assert(data[17] == depth);
    assert(data.subrange(20, 20 + n) =~= image);
    assert(data.subrange(20, data.len() as int) =~= image + zeros(p as nat));
}

/// Which bits of the mask that names a background pixel (bit 1), an event mask (bit
/// 11) and a cursor (bit 14) are set, and where their values stand.
proof fn lemma_background_event_cursor_mask()
    ensures
        mask_bit(0x4802, 1),
        !mask_bit(0x4802, 3),
        mask_bit(0x4802, 11),
        mask_bit(0x4802, 14),
        set_bits_below(0x4802, 1) == 0,
        set_bits_below(0x4802, 11) == 1,
        set_bits_below(0x4802, 14) == 2,
{
    let m: u32 = 0x4802;
    assert(m & (1u32 << 0u32) == 0 && m & (1u32 << 1u32) != 0 && m & (1u32 << 2u32) == 0 && m & (
    1u32 << 3u32) == 0 && m & (1u32 << 4u32) == 0 && m & (1u32 << 5u32) == 0 && m & (1u32 << 6u32)
        == 0 && m & (1u32 << 7u32) == 0 && m & (1u32 << 8u32) == 0 && m & (1u32 << 9u32) == 0
            && m & (
    1u32 << 10u32) == 0 && m & (1u32 << 11u32) != 0 && m & (1u32 << 12u32) == 0 && m & (1u32
        << 13u32) == 0 && m & (1u32 << 14u32) != 0) by (bit_vector)
        requires
            m == 0x4802,
    ;
    reveal_with_fuel(set_bits_below, 15);
}

/// A CreateWindow request whose value list holds a background pixel, an event mask and
/// a cursor, in that order, reads as CreateWindow of its window, parent, geometry,
/// class and visual with those three values and no border pixel.
#[verifier::rlimit(40)]
pub proof fn lemma_create_window_request_reads_back(
    order: ByteOrder,
    depth: u8,
    wid: u32,
    parent: u32,
    x: i16,
    y: i16,
    width: u16,
    height: u16,
    border_width: u16,
    class: WindowClass,
    visual: u32,
    background: u32,
    event_mask: u32,
    cursor: u32,
    req: Request,
)
    ensures
        ({
            let b = seq![1u8, depth] + u16_bytes(order, 11) + u32_bytes(order, wid) + u32_bytes(
                order,
                parent,
            ) + i16_bytes(order, x) + i16_bytes(order, y) + u16_bytes(order, width) + u16_bytes(
                order,
                height,
            ) + u16_bytes(order, border_width) + u16_bytes(order, class.spec_code()) + u32_bytes(
                order,
                visual,
            ) + u32_bytes(order, 0x4802) + u32_bytes(order, background) + u32_bytes(
                order,
                event_mask,
            ) + u32_bytes(order, cursor);
            &&& request_in_bounds(order, b)
            &&& parse_error(order, b) is None
            &&& parsed_as(order, b, req) <==> (req matches Request::CreateWindow(r) && r.depth
                == depth && r.wid == Window(XID(wid)) && r.parent == Window(XID(parent))
                    && r.x == x
                && r.y == y && r.width == width && r.height == height && r.border_width
                == border_width && r.class == class && r.visual == VisualID(visual)
                && r.background_pixel == Some(background) && r.border_pixel is None && r.event_mask
                == Some(event_mask) && r.cursor == Some(cursor))
        }),
{
    broadcast use group_wire_lengths;

    lemma_background_event_cursor_mask();
    let b = seq![1u8, depth] + u16_bytes(order, 11) + u32_bytes(order, wid) + u32_bytes(
        order,
        parent,
    ) + i16_bytes(order, x) + i16_bytes(order, y) + u16_bytes(order, width) + u16_bytes(
        order,
        height,
    ) + u16_bytes(order, border_width) + u16_bytes(order, class.spec_code()) + u32_bytes(
        order,
        visual,
    ) + u32_bytes(order, 0x4802) + u32_bytes(order, background) + u32_bytes(order, event_mask)
        + u32_bytes(order, cursor);
    assert(b.len() == 44);
    assert(b.subrange(2, 4) =~= u16_bytes(order, 11));
    lemma_u16_read(order, b, 2, 11);
    let data = b.subrange(4, 44);
    assert(data.subrange(0, 4) =~= u32_bytes(order, wid));
    lemma_u32_read(order, data, 0, wid);
    assert(data.subrange(4, 8) =~= u32_bytes(order, parent));
    lemma_u32_read(order, data, 4, parent);
    assert(data.subrange(8, 10) =~= i16_bytes(order, x));
    lemma_i16_read(order, data, 8, x);
    assert(data.subrange(10, 12) =~= i16_bytes(order, y));
    lemma_i16_read(order, data, 10, y);
    assert(data.subrange(12, 14) =~= u16_bytes(order, width));
    lemma_u16_read(order, data, 12, width);
    assert(data.subrange(14, 16) =~= u16_bytes(order, height));
    lemma_u16_read(order, data, 14, height);
    assert(data.subrange(16, 18) =~= u16_bytes(order, border_width));
    lemma_u16_read(order, data, 16, border_width);
    assert(data.subrange(18, 20) =~= u16_bytes(order, class.spec_code()));
    lemma_u16_read(order, data, 18, class.spec_code());
    assert(data.subrange(20, 24) =~= u32_bytes(order, visual));
    lemma_u32_read(order, data, 20, visual);
    assert(data.subrange(24, 28) =~= u32_bytes(order, 0x4802));
    lemma_u32_read(order, data, 24, 0x4802);
    assert(data.subrange(28, 32) =~= u32_bytes(order, background));
    lemma_u32_read(order, data, 28, background);
    assert(data.subrange(32, 36) =~= u32_bytes(order, event_mask));
    lemma_u32_read(order, data, 32, event_mask);
    assert(data.subrange(36, 40) =~= u32_bytes(order, cursor));
    lemma_u32_read(order, data, 36, cursor);
    assert(WindowClass::spec_from_u16(class.spec_code()) == Some(class));
}

/// A ChangeWindowAttributes request whose value list holds a background pixel, an
/// event mask and a cursor, in that order, reads as ChangeWindowAttributes of its
/// window with those three values.
pub proof fn lemma_change_window_attributes_request_reads_back(
    order: ByteOrder,
    window: u32,
    background: u32,
    event_mask: u32,
    cursor: u32,
    req: Request,
)
    ensures
        ({
            let b = seq![2u8, 0u8] + u16_bytes(order, 6) + u32_bytes(order, window) + u32_bytes(
                order,
                0x4802,
            ) + u32_bytes(order, background) + u32_bytes(order, event_mask) + u32_bytes(
                order,
                cursor,
            );
            &&& request_in_bounds(order, b)
            &&& parse_error(order, b) is None
            &&& parsed_as(order, b, req) <==> (req matches Request::ChangeWindowAttributes(r)
                && r.window == Window(XID(window)) && r.background_pixel == Some(background)
                && r.event_mask == Some(event_mask) && r.cursor == Some(cursor))
        }),
{
    broadcast use group_wire_lengths;

    lemma_background_event_cursor_mask();
    let b = seq![2u8, 0u8] + u16_bytes(order, 6) + u32_bytes(order, window) + u32_bytes(
        order,
        0x4802,
    ) + u32_bytes(order, background) + u32_bytes(order, event_mask) + u32_bytes(order, cursor);
    assert(b.len() == 24);
    assert(b.subrange(2, 4) =~= u16_bytes(order, 6));
    lemma_u16_read(order, b, 2, 6);
    let data = b.subrange(4, 24);
    assert(data.subrange(0, 4) =~= u32_bytes(order, window));
    lemma_u32_read(order, data, 0, window);
    assert(data.subrange(4, 8) =~= u32_bytes(order, 0x4802));
    lemma_u32_read(order, data, 4, 0x4802);
    assert(data.subrange(8, 12) =~= u32_bytes(order, background));
    lemma_u32_read(order, data, 8, background);
    assert(data.subrange(12, 16) =~= u32_bytes(order, event_mask));
    lemma_u32_read(order, data, 12, event_mask);
    assert(data.subrange(16, 20) =~= u32_bytes(order, cursor));
    lemma_u32_read(order, data, 16, cursor);
}

/// A ConfigureWindow request (opcode 12) with no values reads as ConfigureWindow of its
/// window with nothing to change.
pub proof fn lemma_configure_window_request_reads_back(
    order: ByteOrder,
    window: u32,
    req: Request,
)
    ensures
        ({
            let b = seq![12u8, 0u8] + u16_bytes(order, 3) + u32_bytes(order, window) + zeros(4);
            &&& request_in_bounds(order, b)
            &&& parse_error(order, b) is None
            &&& parsed_as(order, b, req) <==> (req matches Request::ConfigureWindow(r)
                && r.window == Window(XID(window)) && r.x is None && r.y is None
                && r.width is None && r.height is None && r.border_width is None
                && r.stack_mode is None)
        }),
{
    broadcast use group_wire_lengths;

    let b = seq![12u8, 0u8] + u16_bytes(order, 3) + u32_bytes(order, window) + zeros(4);
    assert(b.len() == 12);
    assert(b.subrange(2, 4) =~= u16_bytes(order, 3));
    lemma_u16_read(order, b, 2, 3);
    let data = b.subrange(4, 12);
    assert(data.subrange(0, 4) =~= u32_bytes(order, window));
    lemma_u32_read(order, data, 0, window);
}

/// A ChangeGC request (opcode 56) with no values reads as ChangeGC of its graphics
/// context with nothing to change.
pub proof fn lemma_change_gc_request_reads_back(
    order: ByteOrder,
    gc: u32,
    req: Request,
)
    ensures
        ({
            let b = seq![56u8, 0u8] + u16_bytes(order, 3) + u32_bytes(order, gc) + zeros(4);
            &&& request_in_bounds(order, b)
            &&& parse_error(order, b) is None
            &&& parsed_as(order, b, req) <==> (req matches Request::ChangeGC(r)
                && r.gc == GContext(XID(gc)) && r.foreground is None && r.background is None)
        }),
{
    broadcast use group_wire_lengths;

    let b = seq![56u8, 0u8] + u16_bytes(order, 3) + u32_bytes(order, gc) + zeros(4);
    assert(b.len() == 12);
    assert(b.subrange(2, 4) =~= u16_bytes(order, 3));
    lemma_u16_read(order, b, 2, 3);
    let data = b.subrange(4, 12);
    assert(data.subrange(0, 4) =~= u32_bytes(order, gc));
    lemma_u32_read(order, data, 0, gc);
}

/// A request with an opcode from 128 on is an extension request: it reads as that
/// opcode with the bytes after its header, whatever they are.
pub proof fn lemma_extension_request_reads_back(
    order: ByteOrder,
    opcode: u8,
    detail: u8,
    payload: Seq<u8>,
    req: Request,
)
    requires
        opcode >= 128,
        payload.len() % 4 == 0,
        payload.len() <= 4 * 65534,
    ensures
        ({
            let b = seq![opcode, detail] + u16_bytes(order, ((4 + payload.len()) / 4) as u16)
                + payload;
            &&& request_in_bounds(order, b)
            &&& parse_error(order, b) is None
            &&& parsed_as(order, b, req) <==> (req matches Request::ExtensionRequest {
                opcode: op,
                data: d,
            } && op == opcode && d@ == payload)
        }),
{
    broadcast use group_wire_lengths;

    let units = ((4 + payload.len()) / 4) as u16;
    let b = seq![opcode, detail] + u16_bytes(order, units) + payload;
    assert(units * 4 == b.len());
    assert(b.subrange(2, 4) =~= u16_bytes(order, units));
    lemma_u16_read(order, b, 2, units);
    assert(b.subrange(4, b.len() as int) =~= payload);
}


/// Request parser
pub struct ProtocolParser {
    byte_order: ByteOrder,
}

impl ProtocolParser {
    /// The byte order in which this parser reads integers.
    pub closed spec fn spec_byte_order(&self) -> ByteOrder {
        self.byte_order
    }

    pub fn new(byte_order: ByteOrder) -> (r: Self)
        ensures
            r.spec_byte_order() == byte_order,
    {
        ProtocolParser { byte_order }
    }

    /// Whether `parse_request` can read `buffer` without running off its end: the
    /// check to make before handing it a request from outside.
    pub fn request_in_bounds(&self, buffer: &[u8]) -> (r: bool)
        ensures
            r == request_in_bounds(self.spec_byte_order(), buffer@),
    {
        let order = self.byte_order;
        if buffer.len() < 1 {
            return false;
        }
        if buffer.len() < 4 {
            return true;
        }
        let length = read_u16_at(order, buffer, 2);
        if buffer.len() < (length as usize) * 4 {
            return true;
        }
        if length < 1 {
            return false;
        }
        let data = &buffer[4..(length as usize) * 4];
        data_in_bounds_exec(order, buffer[0], buffer[1], data)
    }

    /// Parses a request from `buffer`, returning it with its declared length in 4-byte units.
    pub fn parse_request(&self, buffer: &[u8]) -> (r: Result<(Request, u16), X11Error>)
        requires
            request_in_bounds(self.spec_byte_order(), buffer@),
        ensures
            match r {
                Ok((req, length)) => parse_error(self.spec_byte_order(), buffer@) is None && length
                    == u16_at(self.spec_byte_order(), buffer@, 2) && parsed_as(
                    self.spec_byte_order(),
                    buffer@,
                    req,
                ),
                Err(e) => parse_error(self.spec_byte_order(), buffer@) == Some(e),
            },
    {
        if buffer.len() < 4 {
            return Err(X11Error::bad_length(0, buffer[0]));
        }

        let opcode = buffer[0];
        let detail = buffer[1];
        let length = self.read_u16(&buffer[2..4]);
        let sequence: u16 = 0;

        let request_size = (length as usize) * 4;
        if buffer.len() < request_size {
            return Err(X11Error::bad_length(sequence, opcode));
        }

        let request_data = &buffer[4..request_size];
        proof {
            assert(length == u16_at(self.byte_order, buffer@, 2));
        }

        let request = match RequestOpcode::from_u8(opcode) {
            Some(RequestOpcode::CreateWindow) => self.parse_create_window(detail, request_data)?,
            Some(RequestOpcode::ChangeWindowAttributes) => {
                self.parse_change_window_attributes(request_data)
            },
            Some(RequestOpcode::GetWindowAttributes) => {
                self.parse_get_window_attributes(request_data)
            },
            Some(RequestOpcode::DestroyWindow) => self.parse_destroy_window(request_data),
            Some(RequestOpcode::MapWindow) => self.parse_map_window(request_data),
            Some(RequestOpcode::UnmapWindow) => self.parse_unmap_window(request_data),
            Some(RequestOpcode::ConfigureWindow) => self.parse_configure_window(request_data),
            Some(RequestOpcode::GetGeometry) => self.parse_get_geometry(request_data),
            Some(RequestOpcode::QueryTree) => self.parse_query_tree(request_data),
            Some(RequestOpcode::InternAtom) => self.parse_intern_atom(detail, request_data),
            Some(RequestOpcode::GetAtomName) => self.parse_get_atom_name(request_data),
            Some(RequestOpcode::ChangeProperty) => self.parse_change_property(detail, request_data),
            Some(RequestOpcode::GetProperty) => self.parse_get_property(detail, request_data),
            Some(RequestOpcode::CreateGC) => self.parse_create_gc(request_data),
            Some(RequestOpcode::ChangeGC) => self.parse_change_gc(request_data),
            Some(RequestOpcode::FreeGC) => self.parse_free_gc(request_data),
            Some(RequestOpcode::ClearArea) => self.parse_clear_area(detail, request_data),
            Some(RequestOpcode::PolyRectangle) => self.parse_poly_rectangle(request_data),
            Some(RequestOpcode::PolyFillRectangle) => self.parse_poly_fill_rectangle(request_data),
            Some(RequestOpcode::PolyLine) => self.parse_poly_line(detail, request_data),
            Some(RequestOpcode::PolyPoint) => self.parse_poly_point(detail, request_data),
            Some(RequestOpcode::ImageText8) => self.parse_image_text8(detail, request_data),
            Some(RequestOpcode::CreatePixmap) => self.parse_create_pixmap(detail, request_data),
            Some(RequestOpcode::FreePixmap) => self.parse_free_pixmap(request_data),
            Some(RequestOpcode::PutImage) => self.parse_put_image(detail, request_data),
            Some(RequestOpcode::OpenFont) => self.parse_open_font(request_data),
            Some(RequestOpcode::CloseFont) => self.parse_close_font(request_data),
            Some(RequestOpcode::CreateGlyphCursor) => self.parse_create_glyph_cursor(request_data),
            Some(RequestOpcode::AllocNamedColor) => self.parse_alloc_named_color(request_data),
            Some(RequestOpcode::AllocColor) => self.parse_alloc_color(request_data),
            Some(RequestOpcode::QueryFont) => self.parse_query_font(request_data),
            Some(RequestOpcode::QueryExtension) => self.parse_query_extension(request_data),
            Some(RequestOpcode::SetSelectionOwner) => self.parse_set_selection_owner(request_data),
            Some(RequestOpcode::GetSelectionOwner) => self.parse_get_selection_owner(request_data),
            Some(RequestOpcode::ConvertSelection) => self.parse_convert_selection(request_data),
            Some(RequestOpcode::GetInputFocus) => Request::GetInputFocus,
            Some(RequestOpcode::PolySegment) => self.parse_poly_segment(request_data),
            Some(RequestOpcode::PolyArc) => self.parse_poly_arc(request_data),
            Some(RequestOpcode::FillPoly) => self.parse_fill_poly(detail, request_data),
            Some(RequestOpcode::PolyFillArc) => self.parse_poly_fill_arc(request_data),
            Some(RequestOpcode::CopyArea) => self.parse_copy_area(request_data),
            Some(RequestOpcode::GetImage) => self.parse_get_image(detail, request_data),
            Some(RequestOpcode::NoOperation) => Request::NoOperation,
            _ => {
                // Extension requests have opcodes from 128 on.
                if opcode >= 128 {
                    let mut data: Vec<u8> = Vec::new();
                    push_bytes(&mut data, request_data);
                    Request::ExtensionRequest { opcode, data }
                } else {
                    return Err(X11Error::implementation_error(sequence, opcode));
                }
            },
        };

        Ok((request, length))
    }

    // Reading with the parser's byte order
    fn read_u16(&self, bytes: &[u8]) -> (r: u16)
        requires
            bytes@.len() >= 2,
        ensures
            r == u16_at(self.byte_order, bytes@, 0),
    {
        read_u16_at(self.byte_order, bytes, 0)
    }

    fn read_u32(&self, bytes: &[u8]) -> (r: u32)
        requires
            bytes@.len() >= 4,
        ensures
            r == u32_at(self.byte_order, bytes@, 0),
    {
        read_u32_at(self.byte_order, bytes, 0)
    }

    fn read_i16(&self, bytes: &[u8]) -> (r: i16)
        requires
            bytes@.len() >= 2,
        ensures
            r == i16_at(self.byte_order, bytes@, 0),
    {
        read_i16_at(self.byte_order, bytes, 0)
    }
}

/// Requests carry at most 65535 four-byte units.
pub open spec fn max_request_data() -> int {
    262140
}

impl ProtocolParser {
    fn parse_create_window(&self, depth: u8, data: &[u8]) -> (r: Result<Request, X11Error>)
        requires
            data@.len() <= max_request_data(),
            data_in_bounds(self.byte_order, 1, depth, data@),
        ensures
            match r {
                Ok(req) => WindowClass::spec_from_u16(u16_at(self.byte_order, data@, 18)) is Some
                    && (req matches Request::CreateWindow(cw) && create_window_fits(
                    self.byte_order,
                    depth,
                    data@,
                    cw,
                )),
                Err(e) => WindowClass::spec_from_u16(u16_at(self.byte_order, data@, 18)) is None
                    && e == x11_error(ErrorCode::Value, 0, 0, 0, 1),
            },
    {
        let ghost o = self.byte_order;
        let wid = Window::new(self.read_u32(&data[0..4]));
        let parent = Window::new(self.read_u32(&data[4..8]));
        let x = self.read_i16(&data[8..10]);
        let y = self.read_i16(&data[10..12]);
        let width = self.read_u16(&data[12..14]);
        let height = self.read_u16(&data[14..16]);
        let border_width = self.read_u16(&data[16..18]);
        let class = match WindowClass::from_u16(self.read_u16(&data[18..20])) {
            Some(c) => c,
            None => {
                return Err(X11Error::bad_value(0, 0, 1));
            },
        };
        let visual = VisualID::new(self.read_u32(&data[20..24]));
        let value_mask = self.read_u32(&data[24..28]);

        // The value list holds one entry for each set bit, in bit order.
        let mut background_pixel: Option<u32> = None;
        let mut border_pixel: Option<u32> = None;
        let mut event_mask: Option<u32> = None;
        let mut cursor: Option<u32> = None;
        let mut offset: usize = 28;
        let mut bit: u32 = 0;
        while bit <= 14
            invariant
                bit <= 15,
                data@.len() <= max_request_data(),
                data_in_bounds(o, 1, depth, data@),
                WindowClass::spec_from_u16(u16_at(o, data@, 18)) is Some,
                value_mask == u32_at(o, data@, 24),
                o == self.byte_order,
                offset == 28 + 4 * set_bits_below(value_mask, bit as nat),
                background_pixel == (if bit > 1 { value_for(o, data@, 28, value_mask, 1) } else { None }),
                border_pixel == (if bit > 3 { value_for(o, data@, 28, value_mask, 3) } else { None }),
                event_mask == (if bit > 11 { value_for(o, data@, 28, value_mask, 11) } else { None }),
                cursor == (if bit > 14 { value_for(o, data@, 28, value_mask, 14) } else { None }),
            decreases 15 - bit,
        {
            proof {
                lemma_set_bits_below_bound(value_mask, bit as nat);
            }
            if value_mask & (1u32 << bit) != 0 {
                if bit == 1 {
                    background_pixel = Some(self.read_u32(&data[offset..offset + 4]));
                } else if bit == 3 {
                    border_pixel = Some(self.read_u32(&data[offset..offset + 4]));
                } else if bit == 11 {
                    event_mask = Some(self.read_u32(&data[offset..offset + 4]));
                } else if bit == 14 {
                    cursor = Some(self.read_u32(&data[offset..offset + 4]));
                }
                offset = offset + 4;
            }
            bit = bit + 1;
        }

        Ok(Request::CreateWindow(CreateWindowRequest {
            depth,
            wid,
            parent,
            x,
            y,
            width,
            height,
            border_width,
            class,
            visual,
            background_pixel,
            border_pixel,
            event_mask,
            cursor,
        }))
    }

    fn parse_change_window_attributes(&self, data: &[u8]) -> (r: Request)
        requires
            data@.len() <= max_request_data(),
            data_in_bounds(self.byte_order, 2, 0, data@),
        ensures
            r matches Request::ChangeWindowAttributes(cwa) && change_window_attributes_fits(
                self.byte_order,
                data@,
                cwa,
            ),
    {
        let ghost o = self.byte_order;
        let window = Window::new(self.read_u32(&data[0..4]));
        let value_mask = self.read_u32(&data[4..8]);

        let mut background_pixel: Option<u32> = None;
        let mut event_mask: Option<u32> = None;
        let mut cursor: Option<u32> = None;
        let mut offset: usize = 8;
        let mut bit: u32 = 0;
        while bit <= 14
            invariant
                bit <= 15,
                data@.len() <= max_request_data(),
                data_in_bounds(o, 2, 0, data@),
                value_mask == u32_at(o, data@, 4),
                o == self.byte_order,
                offset == 8 + 4 * set_bits_below(value_mask, bit as nat),
                background_pixel == (if bit > 1 { value_for(o, data@, 8, value_mask, 1) } else { None }),
                event_mask == (if bit > 11 { value_for(o, data@, 8, value_mask, 11) } else { None }),
                cursor == (if bit > 14 { value_for(o, data@, 8, value_mask, 14) } else { None }),
            decreases 15 - bit,
        {
            proof {
                lemma_set_bits_below_bound(value_mask, bit as nat);
            }
            if value_mask & (1u32 << bit) != 0 {
                if bit == 1 {
                    background_pixel = Some(self.read_u32(&data[offset..offset + 4]));
                } else if bit == 11 {
                    event_mask = Some(self.read_u32(&data[offset..offset + 4]));
                } else if bit == 14 {
                    cursor = Some(self.read_u32(&data[offset..offset + 4]));
                }
                offset = offset + 4;
            }
            bit = bit + 1;
        }

        Request::ChangeWindowAttributes(
            ChangeWindowAttributesRequest { window, background_pixel, event_mask, cursor },
        )
    }

    fn parse_get_window_attributes(&self, data: &[u8]) -> (r: Request)
        requires
            data@.len() >= 4,
        ensures
            r == Request::GetWindowAttributes(
                GetWindowAttributesRequest { window: window_at0(self.byte_order, data@) },
            ),
    {
        let window = Window::new(self.read_u32(&data[0..4]));
        Request::GetWindowAttributes(GetWindowAttributesRequest { window })
    }

    fn parse_destroy_window(&self, data: &[u8]) -> (r: Request)
        requires
            data@.len() >= 4,
        ensures
            r == Request::DestroyWindow(
                DestroyWindowRequest { window: window_at0(self.byte_order, data@) },
            ),
    {
        let window = Window::new(self.read_u32(&data[0..4]));
        Request::DestroyWindow(DestroyWindowRequest { window })
    }

    fn parse_map_window(&self, data: &[u8]) -> (r: Request)
        requires
            data@.len() >= 4,
        ensures
            r == Request::MapWindow(MapWindowRequest { window: window_at0(self.byte_order, data@) }),
    {
        let window = Window::new(self.read_u32(&data[0..4]));
        Request::MapWindow(MapWindowRequest { window })
    }

    fn parse_unmap_window(&self, data: &[u8]) -> (r: Request)
        requires
            data@.len() >= 4,
        ensures
            r == Request::UnmapWindow(
                UnmapWindowRequest { window: window_at0(self.byte_order, data@) },
            ),
    {
        let window = Window::new(self.read_u32(&data[0..4]));
        Request::UnmapWindow(UnmapWindowRequest { window })
    }

    fn parse_configure_window(&self, data: &[u8]) -> (r: Request)
        requires
            data@.len() >= 4,
        ensures
            r == Request::ConfigureWindow(
                ConfigureWindowRequest {
                    window: window_at0(self.byte_order, data@),
                    x: None,
                    y: None,
                    width: None,
                    height: None,
                    border_width: None,
                    stack_mode: None,
                },
            ),
    {
        let window = Window::new(self.read_u32(&data[0..4]));
        Request::ConfigureWindow(
            ConfigureWindowRequest {
                window,
                x: None,
                y: None,
                width: None,
                height: None,
                border_width: None,
                stack_mode: None,
            },
        )
    }

    fn parse_get_geometry(&self, data: &[u8]) -> (r: Request)
        requires
            data@.len() >= 4,
        ensures
            r == Request::GetGeometry(
                GetGeometryRequest { drawable: drawable_at(self.byte_order, data@, 0) },
            ),
    {
        let drawable = Drawable::from_id(self.read_u32(&data[0..4]));
        Request::GetGeometry(GetGeometryRequest { drawable })
    }

    fn parse_query_tree(&self, data: &[u8]) -> (r: Request)
        requires
            data@.len() >= 4,
        ensures
            r == Request::QueryTree(QueryTreeRequest { window: window_at0(self.byte_order, data@) }),
    {
        let window = Window::new(self.read_u32(&data[0..4]));
        Request::QueryTree(QueryTreeRequest { window })
    }

    fn parse_intern_atom(&self, only_if_exists: u8, data: &[u8]) -> (r: Request)
        requires
            data@.len() >= 2,
            4 + u16_at(self.byte_order, data@, 0) <= data@.len(),
        ensures
            r matches Request::InternAtom(ia) && ia.only_if_exists == (only_if_exists != 0)
                && ia.name@ == text_of(counted_bytes(self.byte_order, data@, 0, 4)),
    {
        let name_len = self.read_u16(&data[0..2]) as usize;
        let name = string_from_utf8_lossy(&data[4..4 + name_len]);
        Request::InternAtom(InternAtomRequest { only_if_exists: only_if_exists != 0, name })
    }

    fn parse_get_atom_name(&self, data: &[u8]) -> (r: Request)
        requires
            data@.len() >= 4,
        ensures
            r == Request::GetAtomName(
                GetAtomNameRequest { atom: Atom(u32_at(self.byte_order, data@, 0)) },
            ),
    {
        let atom = Atom::new(self.read_u32(&data[0..4]));
        Request::GetAtomName(GetAtomNameRequest { atom })
    }

    fn parse_change_property(&self, mode: u8, data: &[u8]) -> (r: Request)
        requires
            data@.len() >= 20,
            20 + u32_at(self.byte_order, data@, 16) <= data@.len(),
        ensures
            r matches Request::ChangeProperty(cp)
                && cp.window == window_at0(self.byte_order, data@)
                && cp.property == Atom(u32_at(self.byte_order, data@, 4)) && cp.type_ == Atom(
                u32_at(self.byte_order, data@, 8),
            ) && cp.format == data@[12] && cp.mode == mode && cp.data@ == data@.subrange(
                20,
                20 + u32_at(self.byte_order, data@, 16),
            ),
    {
        let window = Window::new(self.read_u32(&data[0..4]));
        let property = Atom::new(self.read_u32(&data[4..8]));
        let type_ = Atom::new(self.read_u32(&data[8..12]));
        let format = data[12];
        let data_len = self.read_u32(&data[16..20]) as usize;
        let mut prop_data: Vec<u8> = Vec::new();
        push_bytes(&mut prop_data, &data[20..20 + data_len]);

        Request::ChangeProperty(
            ChangePropertyRequest { window, property, type_, format, mode, data: prop_data },
        )
    }

    fn parse_get_property(&self, delete: u8, data: &[u8]) -> (r: Request)
        requires
            data@.len() >= 20,
        ensures
            r == Request::GetProperty(
                GetPropertyRequest {
                    delete: delete != 0,
                    window: window_at0(self.byte_order, data@),
                    property: Atom(u32_at(self.byte_order, data@, 4)),
                    type_: Atom(u32_at(self.byte_order, data@, 8)),
                    long_offset: u32_at(self.byte_order, data@, 12),
                    long_length: u32_at(self.byte_order, data@, 16),
                },
            ),
    {
        let window = Window::new(self.read_u32(&data[0..4]));
        let property = Atom::new(self.read_u32(&data[4..8]));
        let type_ = Atom::new(self.read_u32(&data[8..12]));
        let long_offset = self.read_u32(&data[12..16]);
        let long_length = self.read_u32(&data[16..20]);

        Request::GetProperty(
            GetPropertyRequest {
                delete: delete != 0,
                window,
                property,
                type_,
                long_offset,
                long_length,
            },
        )
    }

    fn parse_create_gc(&self, data: &[u8]) -> (r: Request)
        requires
            data@.len() >= 8,
        ensures
            r == Request::CreateGC(
                CreateGCRequest {
                    cid: gc_at(self.byte_order, data@, 0),
                    drawable: drawable_at(self.byte_order, data@, 4),
                    foreground: None,
                    background: None,
                    line_width: None,
                    function: None,
                },
            ),
    {
        let cid = GContext::new(self.read_u32(&data[0..4]));
        let drawable = Drawable::from_id(self.read_u32(&data[4..8]));

        Request::CreateGC(
            CreateGCRequest {
                cid,
                drawable,
                foreground: None,
                background: None,
                line_width: None,
                function: None,
            },
        )
    }

    fn parse_change_gc(&self, data: &[u8]) -> (r: Request)
        requires
            data@.len() >= 4,
        ensures
            r == Request::ChangeGC(
                ChangeGCRequest {
                    gc: gc_at(self.byte_order, data@, 0),
                    foreground: None,
                    background: None,
                },
            ),
    {
        let gc = GContext::new(self.read_u32(&data[0..4]));
        Request::ChangeGC(ChangeGCRequest { gc, foreground: None, background: None })
    }

    fn parse_free_gc(&self, data: &[u8]) -> (r: Request)
        requires
            data@.len() >= 4,
        ensures
            r == Request::FreeGC(FreeGCRequest { gc: gc_at(self.byte_order, data@, 0) }),
    {
        let gc = GContext::new(self.read_u32(&data[0..4]));
        Request::FreeGC(FreeGCRequest { gc })
    }

    fn parse_clear_area(&self, exposures: u8, data: &[u8]) -> (r: Request)
        requires
            data@.len() >= 12,
        ensures
            r == Request::ClearArea(
                ClearAreaRequest {
                    exposures: exposures != 0,
                    window: window_at0(self.byte_order, data@),
                    x: i16_at(self.byte_order, data@, 4),
                    y: i16_at(self.byte_order, data@, 6),
                    width: u16_at(self.byte_order, data@, 8),
                    height: u16_at(self.byte_order, data@, 10),
                },
            ),
    {
        let window = Window::new(self.read_u32(&data[0..4]));
        let x = self.read_i16(&data[4..6]);
        let y = self.read_i16(&data[6..8]);
        let width = self.read_u16(&data[8..10]);
        let height = self.read_u16(&data[10..12]);

        Request::ClearArea(
            ClearAreaRequest { exposures: exposures != 0, window, x, y, width, height },
        )
    }

    /// The rectangles from offset 8 on.
    fn read_rectangles(&self, data: &[u8]) -> (r: Vec<Rectangle>)
        requires
            8 <= data@.len() <= max_request_data(),
        ensures
            r@ == rects_from(self.byte_order, data@, 8),
    {
        let mut rectangles: Vec<Rectangle> = Vec::new();
        let mut offset: usize = 8;
        while offset + 8 <= data.len()
            invariant
                8 <= offset <= data@.len() <= max_request_data(),
                offset == 8 + 8 * rectangles@.len(),
                rectangles@ =~= Seq::new(
                    rectangles@.len(),
                    |i: int| rect_at(self.byte_order, data@, 8 + 8 * i),
                ),
            decreases data@.len() - offset,
        {
            let x = self.read_i16(&data[offset..offset + 2]);
            let y = self.read_i16(&data[offset + 2..offset + 4]);
            let width = self.read_u16(&data[offset + 4..offset + 6]);
            let height = self.read_u16(&data[offset + 6..offset + 8]);
            rectangles.push(Rectangle { x, y, width, height });
            offset = offset + 8;
        }
        assert(item_count(data@, 8, 8) == rectangles@.len());
        rectangles
    }

    /// The points from offset `start` on.
    fn read_points(&self, data: &[u8], start: usize) -> (r: Vec<Point>)
        requires
            start <= data@.len() <= max_request_data(),
        ensures
            r@ == points_from(self.byte_order, data@, start as int),
    {
        let mut points: Vec<Point> = Vec::new();
        let mut offset: usize = start;
        while offset + 4 <= data.len()
            invariant
                start <= offset <= data@.len() <= max_request_data(),
                offset == start + 4 * points@.len(),
                points@ =~= Seq::new(
                    points@.len(),
                    |i: int| point_at(self.byte_order, data@, start + 4 * i),
                ),
            decreases data@.len() - offset,
        {
            let x = self.read_i16(&data[offset..offset + 2]);
            let y = self.read_i16(&data[offset + 2..offset + 4]);
            points.push(Point { x, y });
            offset = offset + 4;
        }
        assert(item_count(data@, start as int, 4) == points@.len());
        points
    }

    /// The segments from offset 8 on.
    fn read_segments(&self, data: &[u8]) -> (r: Vec<Segment>)
        requires
            8 <= data@.len() <= max_request_data(),
        ensures
            r@ == segments_from(self.byte_order, data@, 8),
    {
        let mut segments: Vec<Segment> = Vec::new();
        let mut offset: usize = 8;
        while offset + 8 <= data.len()
            invariant
                8 <= offset <= data@.len() <= max_request_data(),
                offset == 8 + 8 * segments@.len(),
                segments@ =~= Seq::new(
                    segments@.len(),
                    |i: int| segment_at(self.byte_order, data@, 8 + 8 * i),
                ),
            decreases data@.len() - offset,
        {
            let x1 = self.read_i16(&data[offset..offset + 2]);
            let y1 = self.read_i16(&data[offset + 2..offset + 4]);
            let x2 = self.read_i16(&data[offset + 4..offset + 6]);
            let y2 = self.read_i16(&data[offset + 6..offset + 8]);
            segments.push(Segment { x1, y1, x2, y2 });
            offset = offset + 8;
        }
        assert(item_count(data@, 8, 8) == segments@.len());
        segments
    }

    /// The arcs from offset 8 on.
    fn read_arcs(&self, data: &[u8]) -> (r: Vec<Arc>)
        requires
            8 <= data@.len() <= max_request_data(),
        ensures
            r@ == arcs_from(self.byte_order, data@, 8),
    {
        let mut arcs: Vec<Arc> = Vec::new();
        let mut offset: usize = 8;
        while offset + 12 <= data.len()
            invariant
                8 <= offset <= data@.len() <= max_request_data(),
                offset == 8 + 12 * arcs@.len(),
                arcs@ =~= Seq::new(arcs@.len(), |i: int| arc_at(self.byte_order, data@, 8
                    + 12 * i)),
            decreases data@.len() - offset,
        {
            let x = self.read_i16(&data[offset..offset + 2]);
            let y = self.read_i16(&data[offset + 2..offset + 4]);
            let width = self.read_u16(&data[offset + 4..offset + 6]);
            let height = self.read_u16(&data[offset + 6..offset + 8]);
            let angle1 = self.read_i16(&data[offset + 8..offset + 10]);
            let angle2 = self.read_i16(&data[offset + 10..offset + 12]);
            arcs.push(Arc { x, y, width, height, angle1, angle2 });
            offset = offset + 12;
        }
        assert(item_count(data@, 8, 12) == arcs@.len());
        arcs
    }

    fn parse_poly_rectangle(&self, data: &[u8]) -> (r: Request)
        requires
            8 <= data@.len() <= max_request_data(),
        ensures
            r matches Request::PolyRectangle(pr) && pr.drawable == drawable_at(
                self.byte_order,
                data@,
                0,
            ) && pr.gc == gc_at(self.byte_order, data@, 4) && pr.rectangles@ == rects_from(
                self.byte_order,
                data@,
                8,
            ),
    {
        let drawable = Drawable::from_id(self.read_u32(&data[0..4]));
        let gc = GContext::new(self.read_u32(&data[4..8]));
        let rectangles = self.read_rectangles(data);
        Request::PolyRectangle(PolyRectangleRequest { drawable, gc, rectangles })
    }

    fn parse_poly_fill_rectangle(&self, data: &[u8]) -> (r: Request)
        requires
            8 <= data@.len() <= max_request_data(),
        ensures
            r matches Request::PolyFillRectangle(pr) && pr.drawable == drawable_at(
                self.byte_order,
                data@,
                0,
            ) && pr.gc == gc_at(self.byte_order, data@, 4) && pr.rectangles@ == rects_from(
                self.byte_order,
                data@,
                8,
            ),
    {
        let drawable = Drawable::from_id(self.read_u32(&data[0..4]));
        let gc = GContext::new(self.read_u32(&data[4..8]));
        let rectangles = self.read_rectangles(data);
        Request::PolyFillRectangle(PolyFillRectangleRequest { drawable, gc, rectangles })
    }

    fn parse_poly_line(&self, coordinate_mode: u8, data: &[u8]) -> (r: Request)
        requires
            8 <= data@.len() <= max_request_data(),
        ensures
            r matches Request::PolyLine(pl) && pl.coordinate_mode == coordinate_mode && pl.drawable
                == drawable_at(self.byte_order, data@, 0)
                    && pl.gc == gc_at(self.byte_order, data@, 4)
                && pl.points@ == points_from(self.byte_order, data@, 8),
    {
        let drawable = Drawable::from_id(self.read_u32(&data[0..4]));
        let gc = GContext::new(self.read_u32(&data[4..8]));
        let points = self.read_points(data, 8);
        Request::PolyLine(PolyLineRequest { coordinate_mode, drawable, gc, points })
    }

    fn parse_poly_point(&self, coordinate_mode: u8, data: &[u8]) -> (r: Request)
        requires
            8 <= data@.len() <= max_request_data(),
        ensures
            r matches Request::PolyPoint(pp) && pp.coordinate_mode == coordinate_mode
                && pp.drawable
                == drawable_at(self.byte_order, data@, 0)
                    && pp.gc == gc_at(self.byte_order, data@, 4)
                && pp.points@ == points_from(self.byte_order, data@, 8),
    {
        let drawable = Drawable::from_id(self.read_u32(&data[0..4]));
        let gc = GContext::new(self.read_u32(&data[4..8]));
        let points = self.read_points(data, 8);
        Request::PolyPoint(PolyPointRequest { coordinate_mode, drawable, gc, points })
    }

    fn parse_image_text8(&self, string_len: u8, data: &[u8]) -> (r: Request)
        requires
            data@.len() >= 12,
            12 + string_len <= data@.len(),
        ensures
            r matches Request::ImageText8(it)
                && it.drawable == drawable_at(self.byte_order, data@, 0)
                && it.gc == gc_at(self.byte_order, data@, 4) && it.x == i16_at(
                self.byte_order,
                data@,
                8,
            ) && it.y == i16_at(self.byte_order, data@, 10) && it.string@ == text_of(
                data@.subrange(12, 12 + string_len),
            ),
    {
        let drawable = Drawable::from_id(self.read_u32(&data[0..4]));
        let gc = GContext::new(self.read_u32(&data[4..8]));
        let x = self.read_i16(&data[8..10]);
        let y = self.read_i16(&data[10..12]);
        let string = string_from_utf8_lossy(&data[12..12 + string_len as usize]);

        Request::ImageText8(ImageText8Request { drawable, gc, x, y, string })
    }

    fn parse_create_pixmap(&self, depth: u8, data: &[u8]) -> (r: Request)
        requires
            data@.len() >= 12,
        ensures
            r == Request::CreatePixmap(
                CreatePixmapRequest {
                    depth,
                    pid: Pixmap(XID(u32_at(self.byte_order, data@, 0))),
                    drawable: drawable_at(self.byte_order, data@, 4),
                    width: u16_at(self.byte_order, data@, 8),
                    height: u16_at(self.byte_order, data@, 10),
                },
            ),
    {
        let pid = Pixmap::new(self.read_u32(&data[0..4]));
        let drawable = Drawable::from_id(self.read_u32(&data[4..8]));
        let width = self.read_u16(&data[8..10]);
        let height = self.read_u16(&data[10..12]);

        Request::CreatePixmap(CreatePixmapRequest { depth, pid, drawable, width, height })
    }

    fn parse_free_pixmap(&self, data: &[u8]) -> (r: Request)
        requires
            data@.len() >= 4,
        ensures
            r == Request::FreePixmap(
                FreePixmapRequest { pixmap: Pixmap(XID(u32_at(self.byte_order, data@, 0))) },
            ),
    {
        let pixmap = Pixmap::new(self.read_u32(&data[0..4]));
        Request::FreePixmap(FreePixmapRequest { pixmap })
    }

    fn parse_put_image(&self, format: u8, data: &[u8]) -> (r: Request)
        requires
            data@.len() >= 20,
        ensures
            r matches Request::PutImage(pi) && pi.format == format && pi.drawable == drawable_at(
                self.byte_order,
                data@,
                0,
            ) && pi.gc == gc_at(self.byte_order, data@, 4) && pi.width == u16_at(
                self.byte_order,
                data@,
                8,
            ) && pi.height == u16_at(self.byte_order, data@, 10) && pi.dst_x == i16_at(
                self.byte_order,
                data@,
                12,
            ) && pi.dst_y == i16_at(self.byte_order, data@, 14) && pi.left_pad == data@[16]
                && pi.depth == data@[17] && pi.data@ == data@.subrange(20, data@.len() as int),
    {
        let drawable = Drawable::from_id(self.read_u32(&data[0..4]));
        let gc = GContext::new(self.read_u32(&data[4..8]));
        let width = self.read_u16(&data[8..10]);
        let height = self.read_u16(&data[10..12]);
        let dst_x = self.read_i16(&data[12..14]);
        let dst_y = self.read_i16(&data[14..16]);
        let left_pad = data[16];
        let depth = data[17];
        let mut image_data: Vec<u8> = Vec::new();
        push_bytes(&mut image_data, &data[20..data.len()]);

        Request::PutImage(
            PutImageRequest {
                format,
                drawable,
                gc,
                width,
                height,
                dst_x,
                dst_y,
                left_pad,
                depth,
                data: image_data,
            },
        )
    }

    fn parse_open_font(&self, data: &[u8]) -> (r: Request)
        requires
            data@.len() >= 6,
            8 + u16_at(self.byte_order, data@, 4) <= data@.len(),
        ensures
            r matches Request::OpenFont(of) && of.fid == u32_at(self.byte_order, data@, 0)
                && of.name@ == text_of(counted_bytes(self.byte_order, data@, 4, 8)),
    {
        let fid = self.read_u32(&data[0..4]);
        let name_len = self.read_u16(&data[4..6]) as usize;
        let name = string_from_utf8_lossy(&data[8..8 + name_len]);
        Request::OpenFont(OpenFontRequest { fid, name })
    }

    fn parse_close_font(&self, data: &[u8]) -> (r: Request)
        requires
            data@.len() >= 4,
        ensures
            r == Request::CloseFont(CloseFontRequest { font: u32_at(self.byte_order, data@, 0) }),
    {
        let font = self.read_u32(&data[0..4]);
        Request::CloseFont(CloseFontRequest { font })
    }

    fn parse_create_glyph_cursor(&self, data: &[u8]) -> (r: Request)
        requires
            data@.len() >= 12,
        ensures
            r == Request::CreateGlyphCursor(
                CreateGlyphCursorRequest {
                    cid: u32_at(self.byte_order, data@, 0),
                    source_font: u32_at(self.byte_order, data@, 4),
                    mask_font: u32_at(self.byte_order, data@, 8),
                },
            ),
    {
        let cid = self.read_u32(&data[0..4]);
        let source_font = self.read_u32(&data[4..8]);
        let mask_font = self.read_u32(&data[8..12]);
        Request::CreateGlyphCursor(CreateGlyphCursorRequest { cid, source_font, mask_font })
    }

    fn parse_alloc_named_color(&self, data: &[u8]) -> (r: Request)
        requires
            data@.len() >= 6,
            8 + u16_at(self.byte_order, data@, 4) <= data@.len(),
        ensures
            r matches Request::AllocNamedColor(an)
                && an.colormap == u32_at(self.byte_order, data@, 0)
                && an.name@ == text_of(counted_bytes(self.byte_order, data@, 4, 8)),
    {
        let colormap = self.read_u32(&data[0..4]);
        let name_len = self.read_u16(&data[4..6]) as usize;
        let name = string_from_utf8_lossy(&data[8..8 + name_len]);
        Request::AllocNamedColor(AllocNamedColorRequest { colormap, name })
    }

    fn parse_alloc_color(&self, data: &[u8]) -> (r: Request)
        requires
            data@.len() >= 10,
        ensures
            r == Request::AllocColor(
                AllocColorRequest {
                    colormap: u32_at(self.byte_order, data@, 0),
                    red: u16_at(self.byte_order, data@, 4),
                    green: u16_at(self.byte_order, data@, 6),
                    blue: u16_at(self.byte_order, data@, 8),
                },
            ),
    {
        let colormap = self.read_u32(&data[0..4]);
        let red = self.read_u16(&data[4..6]);
        let green = self.read_u16(&data[6..8]);
        let blue = self.read_u16(&data[8..10]);
        Request::AllocColor(AllocColorRequest { colormap, red, green, blue })
    }

    fn parse_query_font(&self, data: &[u8]) -> (r: Request)
        requires
            data@.len() >= 4,
        ensures
            r == Request::QueryFont(QueryFontRequest { font: u32_at(self.byte_order, data@, 0) }),
    {
        let font = self.read_u32(&data[0..4]);
        Request::QueryFont(QueryFontRequest { font })
    }

    fn parse_query_extension(&self, data: &[u8]) -> (r: Request)
        requires
            data@.len() >= 2,
            4 + u16_at(self.byte_order, data@, 0) <= data@.len(),
        ensures
            r matches Request::QueryExtension(qe) && qe.name@ == text_of(
                counted_bytes(self.byte_order, data@, 0, 4),
            ),
    {
        let name_len = self.read_u16(&data[0..2]) as usize;
        let name = string_from_utf8_lossy(&data[4..4 + name_len]);
        Request::QueryExtension(QueryExtensionRequest { name })
    }

    fn parse_set_selection_owner(&self, data: &[u8]) -> (r: Request)
        requires
            data@.len() >= 12,
        ensures
            r == Request::SetSelectionOwner(
                SetSelectionOwnerRequest {
                    owner: window_at0(self.byte_order, data@),
                    selection: Atom(u32_at(self.byte_order, data@, 4)),
                    time: u32_at(self.byte_order, data@, 8),
                },
            ),
    {
        let owner = Window::new(self.read_u32(&data[0..4]));
        let selection = Atom::new(self.read_u32(&data[4..8]));
        let time = self.read_u32(&data[8..12]);
        Request::SetSelectionOwner(SetSelectionOwnerRequest { owner, selection, time })
    }

    fn parse_get_selection_owner(&self, data: &[u8]) -> (r: Request)
        requires
            data@.len() >= 4,
        ensures
            r == Request::GetSelectionOwner(
                GetSelectionOwnerRequest { selection: Atom(u32_at(self.byte_order, data@, 0)) },
            ),
    {
        let selection = Atom::new(self.read_u32(&data[0..4]));
        Request::GetSelectionOwner(GetSelectionOwnerRequest { selection })
    }

    fn parse_convert_selection(&self, data: &[u8]) -> (r: Request)
        requires
            data@.len() >= 20,
        ensures
            r == Request::ConvertSelection(
                ConvertSelectionRequest {
                    requestor: window_at0(self.byte_order, data@),
                    selection: Atom(u32_at(self.byte_order, data@, 4)),
                    target: Atom(u32_at(self.byte_order, data@, 8)),
                    property: Atom(u32_at(self.byte_order, data@, 12)),
                    time: u32_at(self.byte_order, data@, 16),
                },
            ),
    {
        let requestor = Window::new(self.read_u32(&data[0..4]));
        let selection = Atom::new(self.read_u32(&data[4..8]));
        let target = Atom::new(self.read_u32(&data[8..12]));
        let property = Atom::new(self.read_u32(&data[12..16]));
        let time = self.read_u32(&data[16..20]);
        Request::ConvertSelection(
            ConvertSelectionRequest { requestor, selection, target, property, time },
        )
    }

    fn parse_poly_segment(&self, data: &[u8]) -> (r: Request)
        requires
            8 <= data@.len() <= max_request_data(),
        ensures
            r matches Request::PolySegment(ps)
                && ps.drawable == drawable_at(self.byte_order, data@, 0)
                && ps.gc == gc_at(self.byte_order, data@, 4) && ps.segments@ == segments_from(
                self.byte_order,
                data@,
                8,
            ),
    {
        let drawable = Drawable::from_id(self.read_u32(&data[0..4]));
        let gc = GContext::new(self.read_u32(&data[4..8]));
        let segments = self.read_segments(data);
        Request::PolySegment(PolySegmentRequest { drawable, gc, segments })
    }

    fn parse_poly_arc(&self, data: &[u8]) -> (r: Request)
        requires
            8 <= data@.len() <= max_request_data(),
        ensures
            r matches Request::PolyArc(pa) && pa.drawable == drawable_at(self.byte_order, data@, 0)
                && pa.gc == gc_at(self.byte_order, data@, 4) && pa.arcs@ == arcs_from(
                self.byte_order,
                data@,
                8,
            ),
    {
        let drawable = Drawable::from_id(self.read_u32(&data[0..4]));
        let gc = GContext::new(self.read_u32(&data[4..8]));
        let arcs = self.read_arcs(data);
        Request::PolyArc(PolyArcRequest { drawable, gc, arcs })
    }

    fn parse_poly_fill_arc(&self, data: &[u8]) -> (r: Request)
        requires
            8 <= data@.len() <= max_request_data(),
        ensures
            r matches Request::PolyFillArc(pa)
                && pa.drawable == drawable_at(self.byte_order, data@, 0)
                && pa.gc == gc_at(self.byte_order, data@, 4) && pa.arcs@ == arcs_from(
                self.byte_order,
                data@,
                8,
            ),
    {
        let drawable = Drawable::from_id(self.read_u32(&data[0..4]));
        let gc = GContext::new(self.read_u32(&data[4..8]));
        let arcs = self.read_arcs(data);
        Request::PolyFillArc(PolyFillArcRequest { drawable, gc, arcs })
    }

    fn parse_fill_poly(&self, shape: u8, data: &[u8]) -> (r: Request)
        requires
            10 <= data@.len() <= max_request_data(),
        ensures
            r matches Request::FillPoly(fp)
                && fp.drawable == drawable_at(self.byte_order, data@, 0)
                && fp.gc == gc_at(self.byte_order, data@, 4) && fp.shape == shape
                && fp.coordinate_mode == data@[9] && fp.points@ == points_from(
                self.byte_order,
                data@,
                12,
            ),
    {
        let drawable = Drawable::from_id(self.read_u32(&data[0..4]));
        let gc = GContext::new(self.read_u32(&data[4..8]));
        let coordinate_mode = data[9];
        // The points start after two unused bytes that follow the coordinate mode.
        let points = if data.len() >= 12 {
            self.read_points(data, 12)
        } else {
            Vec::new()
        };
        proof {
            if data@.len() < 12 {
                assert(points_from(self.byte_order, data@, 12) =~= Seq::<Point>::empty());
            }
        }
        Request::FillPoly(FillPolyRequest { drawable, gc, shape, coordinate_mode, points })
    }

    fn parse_copy_area(&self, data: &[u8]) -> (r: Request)
        requires
            data@.len() >= 24,
        ensures
            r == Request::CopyArea(
                CopyAreaRequest {
                    src_drawable: drawable_at(self.byte_order, data@, 0),
                    dst_drawable: drawable_at(self.byte_order, data@, 4),
                    gc: gc_at(self.byte_order, data@, 8),
                    src_x: i16_at(self.byte_order, data@, 12),
                    src_y: i16_at(self.byte_order, data@, 14),
                    dst_x: i16_at(self.byte_order, data@, 16),
                    dst_y: i16_at(self.byte_order, data@, 18),
                    width: u16_at(self.byte_order, data@, 20),
                    height: u16_at(self.byte_order, data@, 22),
                },
            ),
    {
        let src_drawable = Drawable::from_id(self.read_u32(&data[0..4]));
        let dst_drawable = Drawable::from_id(self.read_u32(&data[4..8]));
        let gc = GContext::new(self.read_u32(&data[8..12]));
        let src_x = self.read_i16(&data[12..14]);
        let src_y = self.read_i16(&data[14..16]);
        let dst_x = self.read_i16(&data[16..18]);
        let dst_y = self.read_i16(&data[18..20]);
        let width = self.read_u16(&data[20..22]);
        let height = self.read_u16(&data[22..24]);

        Request::CopyArea(
            CopyAreaRequest {
                src_drawable,
                dst_drawable,
                gc,
                src_x,
                src_y,
                dst_x,
                dst_y,
                width,
                height,
            },
        )
    }

    fn parse_get_image(&self, format: u8, data: &[u8]) -> (r: Request)
        requires
            data@.len() >= 16,
        ensures
            r == Request::GetImage(
                GetImageRequest {
                    format,
                    drawable: drawable_at(self.byte_order, data@, 0),
                    x: i16_at(self.byte_order, data@, 4),
                    y: i16_at(self.byte_order, data@, 6),
                    width: u16_at(self.byte_order, data@, 8),
                    height: u16_at(self.byte_order, data@, 10),
                    plane_mask: u32_at(self.byte_order, data@, 12),
                },
            ),
    {
        let drawable = Drawable::from_id(self.read_u32(&data[0..4]));
        let x = self.read_i16(&data[4..6]);
        let y = self.read_i16(&data[6..8]);
        let width = self.read_u16(&data[8..10]);
        let height = self.read_u16(&data[10..12]);
        let plane_mask = self.read_u32(&data[12..16]);

        Request::GetImage(GetImageRequest { format, drawable, x, y, width, height, plane_mask })
    }
}

/// The executable form of `data_in_bounds`.
fn data_in_bounds_exec(order: ByteOrder, opcode: u8, detail: u8, data: &[u8]) -> (r: bool)
    ensures
        r == data_in_bounds(order, opcode, detail, data@),
{
    let n = data.len();
    match RequestOpcode::from_u8(opcode) {
        Some(RequestOpcode::CreateWindow) => {
            n >= 20 && (WindowClass::from_u16(read_u16_at(order, data, 18)).is_none() || (n >= 28
                && value_list_in_bounds(data, 28, read_u32_at(order, data, 24), true)))
        },
        Some(RequestOpcode::ChangeWindowAttributes) => {
            n >= 8 && value_list_in_bounds(data, 8, read_u32_at(order, data, 4), false)
        },
        Some(RequestOpcode::InternAtom) | Some(RequestOpcode::QueryExtension) => {
            n >= 2 && 4 + (read_u16_at(order, data, 0) as usize) <= n
        },
        Some(RequestOpcode::ChangeProperty) => {
            n >= 20 && (read_u32_at(order, data, 16) as u64) + 20 <= n as u64
        },
        Some(RequestOpcode::GetProperty) | Some(RequestOpcode::PutImage) | Some(
            RequestOpcode::ConvertSelection,
        ) => n >= 20,
        Some(RequestOpcode::CreateGC) | Some(RequestOpcode::PolyRectangle) | Some(
            RequestOpcode::PolyFillRectangle,
        ) | Some(RequestOpcode::PolyLine) | Some(RequestOpcode::PolyPoint) | Some(
            RequestOpcode::PolySegment,
        ) | Some(RequestOpcode::PolyArc) | Some(RequestOpcode::PolyFillArc) => n >= 8,
        Some(RequestOpcode::ClearArea) | Some(RequestOpcode::CreatePixmap) | Some(
            RequestOpcode::CreateGlyphCursor,
        ) | Some(RequestOpcode::SetSelectionOwner) => n >= 12,
        Some(RequestOpcode::ImageText8) => n >= 12 && 12 + (detail as usize) <= n,
        Some(RequestOpcode::OpenFont) | Some(RequestOpcode::AllocNamedColor) => {
            n >= 6 && 8 + (read_u16_at(order, data, 4) as usize) <= n
        },
        Some(RequestOpcode::FillPoly) => n >= 10,
        Some(RequestOpcode::CopyArea) => n >= 24,
        Some(RequestOpcode::GetImage) => n >= 16,
        Some(RequestOpcode::GetWindowAttributes) | Some(RequestOpcode::DestroyWindow) | Some(
            RequestOpcode::MapWindow,
        ) | Some(RequestOpcode::UnmapWindow) | Some(RequestOpcode::ConfigureWindow) | Some(
            RequestOpcode::GetGeometry,
        ) | Some(RequestOpcode::QueryTree) | Some(RequestOpcode::GetAtomName) | Some(
            RequestOpcode::ChangeGC,
        ) | Some(RequestOpcode::FreeGC) | Some(RequestOpcode::FreePixmap) | Some(
            RequestOpcode::CloseFont,
        ) | Some(RequestOpcode::QueryFont) | Some(RequestOpcode::GetSelectionOwner) => n >= 4,
        _ => true,
    }
}

/// Whether every value-list entry that the parser reads lies in `data`: the entries
/// for bits 1, 11 and 14, and for bit 3 when `with_border` holds.
fn value_list_in_bounds(data: &[u8], base: usize, mask: u32, with_border: bool) -> (r: bool)
    requires
        base <= 28,
    ensures
        r == (value_in_bounds(data@, base as int, mask, 1) && (with_border ==> value_in_bounds(
            data@,
            base as int,
            mask,
            3,
        )) && value_in_bounds(data@, base as int, mask, 11) && value_in_bounds(
            data@,
            base as int,
            mask,
            14,
        )),
{
    let n = data.len();
    let mut offset: usize = base;
    let mut bit: u32 = 0;
    let mut ok = true;
    while bit <= 14
        invariant
            bit <= 15,
            base <= 28,
            n == data@.len(),
            offset == base + 4 * set_bits_below(mask, bit as nat),
            ok == ((bit > 1 ==> value_in_bounds(data@, base as int, mask, 1)) && (bit > 3
                && with_border ==> value_in_bounds(data@, base as int, mask, 3)) && (bit > 11
                ==> value_in_bounds(data@, base as int, mask, 11))
                    && (bit > 14 ==> value_in_bounds(
                data@,
                base as int,
                mask,
                14,
            ))),
        decreases 15 - bit,
    {
        proof {
            lemma_set_bits_below_bound(mask, bit as nat);
        }
        if mask & (1u32 << bit) != 0 {
            let reads = bit == 1 || (bit == 3 && with_border) || bit == 11 || bit == 14;
            if reads && offset + 4 > n {
                ok = false;
            }
            offset = offset + 4;
        }
        bit = bit + 1;
    }
    ok
}

} // verus!
