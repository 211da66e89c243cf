//! The requests that the X server backend sends, least significant byte first.
//!
//! Each builder returns the request's bytes; the spec function beside it says
//! which bytes those are.
use vstd::prelude::*;
use vstd::utf8::encode_utf8;
use crate::backend::traits::{BackendGC, WindowParams};
use crate::protocol::parser::{parse_error, parsed_as, request_in_bounds, Request};
use crate::protocol::types::{Arc, ByteOrder, Drawable, GContext, Pixmap, Point, Rectangle, Window, XID};
use crate::protocol::wire::{
    group_wire_lengths, i16_at, lemma_i16_read, lemma_i16_roundtrip, lemma_u16_read,
    lemma_u16_roundtrip, lemma_u32_read, lemma_u32_roundtrip, i16_bytes, push_bytes, push_i16,
    push_u16, push_u32, push_zeros, u16_at, u16_bytes, u32_at, u32_bytes, zeros,
};
use crate::protocol::{pad, spec_pad};

verus! {

/// A 16-bit value, least significant byte first.
pub open spec fn l16(v: u16) -> Seq<u8> {
    u16_bytes(ByteOrder::LSBFirst, v)
}

/// A 32-bit value, least significant byte first.
pub open spec fn l32(v: u32) -> Seq<u8> {
    u32_bytes(ByteOrder::LSBFirst, v)
}

/// A signed 16-bit value, least significant byte first.
pub open spec fn li16(v: i16) -> Seq<u8> {
    i16_bytes(ByteOrder::LSBFirst, v)
}

/// CreateGC: the GC takes the foreground and background of `gc`, and the font when
/// one is given.
pub open spec fn create_gc_bytes(gc_id: u32, drawable: u32, gc: BackendGC, font: Option<u32>) -> Seq<
    u8,
> {
    let fixed = seq![55u8, 0u8] + l16(if font is Some { 7 } else { 6 }) + l32(gc_id)
        + l32(drawable);
    match font {
        Some(f) => fixed + l32(0x0000_400c) + l32(gc.foreground) + l32(gc.background) + l32(f),
        None => fixed + l32(0x0000_000c) + l32(gc.foreground) + l32(gc.background),
    }
}

/// Builds a CreateGC request (opcode 55).
pub fn create_gc_request(gc_id: u32, drawable: u32, gc: &BackendGC, font_id: Option<u32>) -> (r: Vec<u8>)
    ensures
        r@ == create_gc_bytes(gc_id, drawable, *gc, font_id),
{
    let mut req: Vec<u8> = Vec::new();
    req.push(55u8);  // Opcode: CreateGC
    req.push(0u8);
    // Length: header, cid, drawable, value mask, then one word per value
    push_u16(&mut req, ByteOrder::LSBFirst, if font_id.is_some() { 7 } else { 6 });
    push_u32(&mut req, ByteOrder::LSBFirst, gc_id);
    push_u32(&mut req, ByteOrder::LSBFirst, drawable);
    match font_id {
        Some(fid) => {
            // Foreground (bit 2), background (bit 3), font (bit 14)
            push_u32(&mut req, ByteOrder::LSBFirst, 0x0000_400c);
            push_u32(&mut req, ByteOrder::LSBFirst, gc.foreground);
            push_u32(&mut req, ByteOrder::LSBFirst, gc.background);
            push_u32(&mut req, ByteOrder::LSBFirst, fid);
        },
        None => {
            // Foreground (bit 2), background (bit 3)
            push_u32(&mut req, ByteOrder::LSBFirst, 0x0000_000c);
            push_u32(&mut req, ByteOrder::LSBFirst, gc.foreground);
            push_u32(&mut req, ByteOrder::LSBFirst, gc.background);
        },
    }
    assert(req@ =~= create_gc_bytes(gc_id, drawable, *gc, font_id));
    req
}

/// ChangeGC: the GC takes the foreground and background of `gc`.
pub open spec fn change_gc_bytes(gc_id: u32, gc: BackendGC) -> Seq<u8> {
    seq![56u8, 0u8] + l16(5) + l32(gc_id) + l32(0x0000_000c) + l32(gc.foreground) + l32(
        gc.background,
    )
}

/// Builds a ChangeGC request (opcode 56).
pub fn change_gc_request(gc_id: u32, gc: &BackendGC) -> (r: Vec<u8>)
    ensures
        r@ == change_gc_bytes(gc_id, *gc),
{
    let mut req: Vec<u8> = Vec::new();
    req.push(56u8);  // Opcode: ChangeGC
    req.push(0u8);
    push_u16(&mut req, ByteOrder::LSBFirst, 5);
    push_u32(&mut req, ByteOrder::LSBFirst, gc_id);
    // Foreground (bit 2), background (bit 3)
    push_u32(&mut req, ByteOrder::LSBFirst, 0x0000_000c);
    push_u32(&mut req, ByteOrder::LSBFirst, gc.foreground);
    push_u32(&mut req, ByteOrder::LSBFirst, gc.background);
    assert(req@ =~= change_gc_bytes(gc_id, *gc));
    req
}

/// OpenFont: the font `name`, padded to a multiple of four bytes.
pub open spec fn open_font_bytes(font_id: u32, name: Seq<u8>) -> Seq<u8> {
    seq![45u8, 0u8] + l16((3 + (name.len() + spec_pad(name.len() as int)) / 4) as u16) + l32(
        font_id,
    ) + l16(name.len() as u16) + zeros(2) + name + zeros(spec_pad(name.len() as int) as nat)
}

/// Builds an OpenFont request (opcode 45).
pub fn open_font_request(font_id: u32, name: &[u8]) -> (r: Vec<u8>)
    requires
        name@.len() + 3 <= usize::MAX,
    ensures
        r@ == open_font_bytes(font_id, name@),
{
    let name_len = name.len();
    let name_pad = pad(name_len);
    let mut req: Vec<u8> = Vec::new();
    req.push(45u8);  // Opcode: OpenFont
    req.push(0u8);
    let length = 3 + (name_len + name_pad) / 4;
    push_u16(&mut req, ByteOrder::LSBFirst, length as u16);
    push_u32(&mut req, ByteOrder::LSBFirst, font_id);
    push_u16(&mut req, ByteOrder::LSBFirst, name_len as u16);
    push_zeros(&mut req, 2);
    push_bytes(&mut req, name);
    push_zeros(&mut req, name_pad);
    assert(req@ =~= open_font_bytes(font_id, name@));
    req
}

/// The values of a new window: its background pixel and its event mask, each when
/// it is set, with the mask bits that announce them.
pub open spec fn window_values(params: WindowParams) -> (u32, Seq<u8>) {
    let bg: (u32, Seq<u8>) = match params.background_pixel {
        Some(p) => (0x0000_0002u32, l32(p)),
        None => (0u32, Seq::empty()),
    };
    if params.event_mask != 0 {
        ((bg.0 | 0x0000_0800) as u32, bg.1 + l32(params.event_mask))
    } else {
        bg
    }
}

/// CreateWindow: a 24-bit InputOutput window with the given visual, its geometry
/// and values from `params`.
pub open spec fn create_window_bytes(wid: u32, parent: u32, visual: u32, params: WindowParams) -> Seq<
    u8,
> {
    let (mask, values) = window_values(params);
    seq![1u8, 24u8] + l16((8 + values.len() / 4) as u16) + l32(wid) + l32(parent) + li16(params.x)
        + li16(params.y) + l16(params.width) + l16(params.height) + l16(params.border_width)
        + l16(1) + l32(visual) + l32(mask) + values
}

/// Builds a CreateWindow request (opcode 1).
pub fn create_window_request(wid: u32, parent: u32, visual: u32, params: &WindowParams) -> (r: Vec<u8>)
    ensures
        r@ == create_window_bytes(wid, parent, visual, *params),
{
    // Value mask and value list
    let mut value_mask: u32 = 0;
    let mut value_list: Vec<u8> = Vec::new();
    match params.background_pixel {
        Some(bg) => {
            value_mask = value_mask | 0x0000_0002;  // CWBackPixel
            push_u32(&mut value_list, ByteOrder::LSBFirst, bg);
        },
        None => {},
    }
    if params.event_mask != 0 {
        value_mask = value_mask | 0x0000_0800;  // CWEventMask
        push_u32(&mut value_list, ByteOrder::LSBFirst, params.event_mask);
    }
    assert(0u32 | 0x0000_0002u32 == 0x0000_0002u32) by (bit_vector);
    assert(0u32 | 0x0000_0800u32 == 0x0000_0800u32) by (bit_vector);
    assert((value_mask, value_list@) == window_values(*params));

    let mut req: Vec<u8> = Vec::new();
    req.push(1u8);  // Opcode: CreateWindow
    req.push(24u8);  // Depth
    // Length in 4-byte units: 32 bytes, then the values
    push_u16(&mut req, ByteOrder::LSBFirst, (8 + value_list.len() / 4) as u16);
    push_u32(&mut req, ByteOrder::LSBFirst, wid);
    push_u32(&mut req, ByteOrder::LSBFirst, parent);
    push_i16(&mut req, ByteOrder::LSBFirst, params.x);
    push_i16(&mut req, ByteOrder::LSBFirst, params.y);
    push_u16(&mut req, ByteOrder::LSBFirst, params.width);
    push_u16(&mut req, ByteOrder::LSBFirst, params.height);
    push_u16(&mut req, ByteOrder::LSBFirst, params.border_width);
    push_u16(&mut req, ByteOrder::LSBFirst, 1);  // class: InputOutput
    push_u32(&mut req, ByteOrder::LSBFirst, visual);
    push_u32(&mut req, ByteOrder::LSBFirst, value_mask);
    push_bytes(&mut req, value_list.as_slice());
    assert(req@ =~= create_window_bytes(wid, parent, visual, *params));
    req
}

/// MapWindow.
pub open spec fn map_window_bytes(wid: u32) -> Seq<u8> {
    seq![8u8, 0u8] + l16(2) + l32(wid)
}

/// Builds a MapWindow request (opcode 8).
pub fn map_window_request(wid: u32) -> (r: Vec<u8>)
    ensures
        r@ == map_window_bytes(wid),
{
    let mut req: Vec<u8> = Vec::new();
    req.push(8u8);  // Opcode: MapWindow
    req.push(0u8);
    push_u16(&mut req, ByteOrder::LSBFirst, 2);
    push_u32(&mut req, ByteOrder::LSBFirst, wid);
    assert(req@ =~= map_window_bytes(wid));
    req
}

/// ConfigureWindow with only a stack mode: 0 (Above) raises the window, 1 (Below)
/// lowers it.
pub open spec fn restack_window_bytes(wid: u32, stack_mode: u32) -> Seq<u8> {
    seq![12u8, 0u8] + l16(4) + l32(wid) + l16(0x0040) + zeros(2) + l32(stack_mode)
}

/// Builds a ConfigureWindow request (opcode 12) that changes the stacking only.
pub fn restack_window_request(wid: u32, stack_mode: u32) -> (r: Vec<u8>)
    ensures
        r@ == restack_window_bytes(wid, stack_mode),
{
    let mut req: Vec<u8> = Vec::new();
    req.push(12u8);  // Opcode: ConfigureWindow
    req.push(0u8);
    push_u16(&mut req, ByteOrder::LSBFirst, 4);
    push_u32(&mut req, ByteOrder::LSBFirst, wid);
    push_u16(&mut req, ByteOrder::LSBFirst, 0x0040);  // Value mask: stack-mode
    push_zeros(&mut req, 2);
    push_u32(&mut req, ByteOrder::LSBFirst, stack_mode);
    assert(req@ =~= restack_window_bytes(wid, stack_mode));
    req
}

/// ChangeProperty replacing WM_NAME (atom 39) with the STRING (atom 31) `title`.
pub open spec fn set_title_bytes(wid: u32, title: Seq<u8>) -> Seq<u8> {
    let padded = title.len() + spec_pad(title.len() as int);
    seq![18u8, 0u8] + l16(((24 + padded) / 4) as u16) + l32(wid) + l32(39) + l32(31) + seq![
        8u8,
        0u8,
        0u8,
        0u8,
    ] + l32(title.len() as u32) + title + zeros(spec_pad(title.len() as int) as nat)
}

/// Builds the ChangeProperty request (opcode 18) that sets a window's title.
pub fn set_title_request(wid: u32, title: &str) -> (r: Vec<u8>)
    requires
        encode_utf8(title@).len() + 27 <= usize::MAX,
    ensures
        r@ == set_title_bytes(wid, encode_utf8(title@)),
{
    let title_bytes = title.as_bytes();
    let padded = title_bytes.len() + pad(title_bytes.len());
    let mut req: Vec<u8> = Vec::new();
    req.push(18u8);  // Opcode: ChangeProperty
    req.push(0u8);  // Mode: Replace
    push_u16(&mut req, ByteOrder::LSBFirst, ((24 + padded) / 4) as u16);
    push_u32(&mut req, ByteOrder::LSBFirst, wid);
    push_u32(&mut req, ByteOrder::LSBFirst, 39);  // Property: WM_NAME
    push_u32(&mut req, ByteOrder::LSBFirst, 31);  // Type: STRING
    req.push(8u8);  // Format: 8 bits per element
    push_zeros(&mut req, 3);
    push_u32(&mut req, ByteOrder::LSBFirst, title_bytes.len() as u32);
    push_bytes(&mut req, title_bytes);
    push_zeros(&mut req, pad(title_bytes.len()));
    assert(req@ =~= set_title_bytes(wid, title_bytes@));
    req
}

/// PolyRectangle (opcode 67) or PolyFillRectangle (opcode 70) of one rectangle.
pub open spec fn rectangle_bytes(
    opcode: u8,
    drawable: u32,
    gc_id: u32,
    x: i16,
    y: i16,
    width: u16,
    height: u16,
) -> Seq<u8> {
    seq![opcode, 0u8] + l16(5) + l32(drawable) + l32(gc_id) + li16(x) + li16(y) + l16(width) + l16(
        height,
    )
}

/// Builds a request that draws (opcode 67) or fills (opcode 70) one rectangle.
pub fn rectangle_request(
    opcode: u8,
    drawable: u32,
    gc_id: u32,
    x: i16,
    y: i16,
    width: u16,
    height: u16,
) -> (r: Vec<u8>)
    ensures
        r@ == rectangle_bytes(opcode, drawable, gc_id, x, y, width, height),
{
    let mut req: Vec<u8> = Vec::new();
    req.push(opcode);
    req.push(0u8);
    push_u16(&mut req, ByteOrder::LSBFirst, 5);  // Length: 5 words
    push_u32(&mut req, ByteOrder::LSBFirst, drawable);
    push_u32(&mut req, ByteOrder::LSBFirst, gc_id);
    push_i16(&mut req, ByteOrder::LSBFirst, x);
    push_i16(&mut req, ByteOrder::LSBFirst, y);
    push_u16(&mut req, ByteOrder::LSBFirst, width);
    push_u16(&mut req, ByteOrder::LSBFirst, height);
    assert(req@ =~= rectangle_bytes(opcode, drawable, gc_id, x, y, width, height));
    req
}

/// PolySegment of one line segment.
pub open spec fn segment_bytes(drawable: u32, gc_id: u32, x1: i16, y1: i16, x2: i16, y2: i16) -> Seq<
    u8,
> {
    seq![66u8, 0u8] + l16(5) + l32(drawable) + l32(gc_id) + li16(x1) + li16(y1) + li16(x2) + li16(
        y2,
    )
}

/// Builds a PolySegment request (opcode 66) for a single line segment.
pub fn segment_request(drawable: u32, gc_id: u32, x1: i16, y1: i16, x2: i16, y2: i16) -> (r: Vec<u8>)
    ensures
        r@ == segment_bytes(drawable, gc_id, x1, y1, x2, y2),
{
    let mut req: Vec<u8> = Vec::new();
    req.push(66u8);  // Opcode: PolySegment
    req.push(0u8);
    push_u16(&mut req, ByteOrder::LSBFirst, 5);  // Length: header + 1 segment
    push_u32(&mut req, ByteOrder::LSBFirst, drawable);
    push_u32(&mut req, ByteOrder::LSBFirst, gc_id);
    push_i16(&mut req, ByteOrder::LSBFirst, x1);
    push_i16(&mut req, ByteOrder::LSBFirst, y1);
    push_i16(&mut req, ByteOrder::LSBFirst, x2);
    push_i16(&mut req, ByteOrder::LSBFirst, y2);
    assert(req@ =~= segment_bytes(drawable, gc_id, x1, y1, x2, y2));
    req
}

/// The points one after another, each as its X then its Y.
pub open spec fn points_bytes(points: Seq<Point>) -> Seq<u8>
    decreases points.len(),
{
    if points.len() == 0 {
        Seq::empty()
    } else {
        points_bytes(points.drop_last()) + li16(points.last().x) + li16(points.last().y)
    }
}

/// Appends the points.
fn push_points(req: &mut Vec<u8>, points: &[Point])
    ensures
        final(req)@ == old(req)@ + points_bytes(points@),
{
    let mut i: usize = 0;
    while i < points.len()
        invariant
            i <= points@.len(),
            req@ == old(req)@ + points_bytes(points@.take(i as int)),
        decreases points@.len() - i,
    {
        push_i16(req, ByteOrder::LSBFirst, points[i].x);
        push_i16(req, ByteOrder::LSBFirst, points[i].y);
        i = i + 1;
        assert(points@.take(i as int).drop_last() =~= points@.take(i - 1));
        assert(req@ =~= old(req)@ + points_bytes(points@.take(i as int)));
    }
    assert(points@.take(points@.len() as int) =~= points@);
}

/// PolyPoint of the points, relative to the origin.
pub open spec fn poly_point_bytes(drawable: u32, gc_id: u32, points: Seq<Point>) -> Seq<u8> {
    seq![64u8, 0u8] + l16((3 + (points.len() as u16)) as u16) + l32(drawable) + l32(gc_id)
        + points_bytes(points)
}

/// Builds a PolyPoint request (opcode 64).
pub fn poly_point_request(drawable: u32, gc_id: u32, points: &[Point]) -> (r: Vec<u8>)
    requires
        3 + (points@.len() as u16) <= u16::MAX,
    ensures
        r@ == poly_point_bytes(drawable, gc_id, points@),
{
    let mut req: Vec<u8> = Vec::new();
    req.push(64u8);  // Opcode: PolyPoint
    req.push(0u8);  // Coordinate mode: Origin
    push_u16(&mut req, ByteOrder::LSBFirst, 3 + points.len() as u16);
    push_u32(&mut req, ByteOrder::LSBFirst, drawable);
    push_u32(&mut req, ByteOrder::LSBFirst, gc_id);
    push_points(&mut req, points);
    assert(req@ =~= poly_point_bytes(drawable, gc_id, points@));
    req
}

/// FillPoly of a convex polygon, relative to the origin.
pub open spec fn fill_poly_bytes(drawable: u32, gc_id: u32, points: Seq<Point>) -> Seq<u8> {
    seq![69u8, 0u8] + l16((4 + (points.len() as u16)) as u16) + l32(drawable) + l32(gc_id) + seq![
        2u8,
        0u8,
        0u8,
        0u8,
    ] + points_bytes(points)
}

/// Builds a FillPoly request (opcode 69).
pub fn fill_poly_request(drawable: u32, gc_id: u32, points: &[Point]) -> (r: Vec<u8>)
    requires
        4 + (points@.len() as u16) <= u16::MAX,
    ensures
        r@ == fill_poly_bytes(drawable, gc_id, points@),
{
    let mut req: Vec<u8> = Vec::new();
    req.push(69u8);  // Opcode: FillPoly
    req.push(0u8);
    push_u16(&mut req, ByteOrder::LSBFirst, 4 + points.len() as u16);
    push_u32(&mut req, ByteOrder::LSBFirst, drawable);
    push_u32(&mut req, ByteOrder::LSBFirst, gc_id);
    req.push(2u8);  // shape = Convex
    req.push(0u8);  // coordinate mode = Origin
    push_zeros(&mut req, 2);
    push_points(&mut req, points);
    assert(req@ =~= fill_poly_bytes(drawable, gc_id, points@));
    req
}

/// The 12 bytes of an arc.
pub open spec fn arc_bytes(a: Arc) -> Seq<u8> {
    li16(a.x) + li16(a.y) + l16(a.width) + l16(a.height) + li16(a.angle1) + li16(a.angle2)
}

/// The arcs one after another.
pub open spec fn arcs_bytes(arcs: Seq<Arc>) -> Seq<u8>
    decreases arcs.len(),
{
    if arcs.len() == 0 {
        Seq::empty()
    } else {
        arcs_bytes(arcs.drop_last()) + arc_bytes(arcs.last())
    }
}

/// PolyArc (opcode 68) or PolyFillArc (opcode 71) of the arcs.
pub open spec fn arcs_request_bytes(opcode: u8, drawable: u32, gc_id: u32, arcs: Seq<Arc>) -> Seq<
    u8,
> {
    seq![opcode, 0u8] + l16((3 + ((arcs.len() * 3) as u16)) as u16) + l32(drawable) + l32(gc_id)
        + arcs_bytes(arcs)
}

/// Builds a request that draws (opcode 68) or fills (opcode 71) the arcs.
pub fn arcs_request(opcode: u8, drawable: u32, gc_id: u32, arcs: &[Arc]) -> (r: Vec<u8>)
    requires
        arcs@.len() * 3 <= usize::MAX,
        3 + ((arcs@.len() * 3) as u16) <= u16::MAX,
    ensures
        r@ == arcs_request_bytes(opcode, drawable, gc_id, arcs@),
{
    let mut req: Vec<u8> = Vec::new();
    req.push(opcode);
    req.push(0u8);
    // Length: header and three words for each arc
    push_u16(&mut req, ByteOrder::LSBFirst, 3 + (arcs.len() * 3) as u16);
    push_u32(&mut req, ByteOrder::LSBFirst, drawable);
    push_u32(&mut req, ByteOrder::LSBFirst, gc_id);
    let ghost head = req@;
    let mut i: usize = 0;
    while i < arcs.len()
        invariant
            i <= arcs@.len(),
            req@ == head + arcs_bytes(arcs@.take(i as int)),
        decreases arcs@.len() - i,
    {
        let arc = arcs[i];
        push_i16(&mut req, ByteOrder::LSBFirst, arc.x);
        push_i16(&mut req, ByteOrder::LSBFirst, arc.y);
        push_u16(&mut req, ByteOrder::LSBFirst, arc.width);
        push_u16(&mut req, ByteOrder::LSBFirst, arc.height);
        push_i16(&mut req, ByteOrder::LSBFirst, arc.angle1);
        push_i16(&mut req, ByteOrder::LSBFirst, arc.angle2);
        i = i + 1;
        assert(arcs@.take(i as int).drop_last() =~= arcs@.take(i - 1));
        assert(req@ =~= head + arcs_bytes(arcs@.take(i as int)));
    }
    assert(arcs@.take(arcs@.len() as int) =~= arcs@);
    req
}

/// The first 255 characters of `text`, each cut to its low byte (Latin-1 for the
/// characters that have one).
pub open spec fn text8(text: Seq<char>) -> Seq<u8> {
    let n = if text.len() < 255 {
        text.len()
    } else {
        255
    };
    text.take(n as int).map_values(|c: char| c as u8)
}

/// ImageText8 of the string `bytes` at (`x`, `y`), padded to a multiple of four.
pub open spec fn image_text_bytes(drawable: u32, gc_id: u32, x: i16, y: i16, bytes: Seq<u8>) -> Seq<
    u8,
> {
    seq![76u8, bytes.len() as u8] + l16((4 + (bytes.len()
        + spec_pad(bytes.len() as int)) / 4) as u16)
        + l32(drawable) + l32(gc_id) + li16(x) + li16(y) + bytes + zeros(
        spec_pad(bytes.len() as int) as nat,
    )
}

/// Builds an ImageText8 request (opcode 76) for `text`.
pub fn image_text_request(drawable: u32, gc_id: u32, x: i16, y: i16, text: &str) -> (r: Vec<u8>)
    ensures
        r@ == image_text_bytes(drawable, gc_id, x, y, text8(text@)),
{
    // Convert to bytes (Latin-1 encoding, truncate to 255 chars max per request)
    let chars = text.unicode_len();
    let n: usize = if chars < 255 {
        chars
    } else {
        255
    };
    let mut text_bytes: Vec<u8> = Vec::new();
    let mut i: usize = 0;
    while i < n
        invariant
            i <= n,
            n <= text@.len(),
            n <= 255,
            text_bytes@ == text@.take(i as int).map_values(|c: char| c as u8),
        decreases n - i,
    {
        let c = text.get_char(i);
        text_bytes.push(c as u8);
        i = i + 1;
        assert(text_bytes@ =~= text@.take(i as int).map_values(|c: char| c as u8));
    }
    assert(text_bytes@ =~= text8(text@));
    let text_len = text_bytes.len();
    let text_pad = pad(text_len);

    let mut req: Vec<u8> = Vec::new();
    req.push(76u8);  // Opcode: ImageText8
    req.push(text_len as u8);  // n (string length)
    push_u16(&mut req, ByteOrder::LSBFirst, (4 + (text_len + text_pad) / 4) as u16);
    push_u32(&mut req, ByteOrder::LSBFirst, drawable);
    push_u32(&mut req, ByteOrder::LSBFirst, gc_id);
    push_i16(&mut req, ByteOrder::LSBFirst, x);
    push_i16(&mut req, ByteOrder::LSBFirst, y);
    push_bytes(&mut req, text_bytes.as_slice());
    push_zeros(&mut req, text_pad);
    assert(req@ =~= image_text_bytes(drawable, gc_id, x, y, text_bytes@));
    req
}

/// CopyArea from `src` to `dst`.
pub open spec fn copy_area_bytes(
    src: u32,
    dst: u32,
    gc_id: u32,
    src_x: i16,
    src_y: i16,
    width: u16,
    height: u16,
    dst_x: i16,
    dst_y: i16,
) -> Seq<u8> {
    seq![62u8, 0u8] + l16(7) + l32(src) + l32(dst) + l32(gc_id) + li16(src_x) + li16(src_y) + li16(
        dst_x,
    ) + li16(dst_y) + l16(width) + l16(height)
}

/// Builds a CopyArea request (opcode 62).
pub fn copy_area_request(
    src: u32,
    dst: u32,
    gc_id: u32,
    src_x: i16,
    src_y: i16,
    width: u16,
    height: u16,
    dst_x: i16,
    dst_y: i16,
) -> (r: Vec<u8>)
    ensures
        r@ == copy_area_bytes(src, dst, gc_id, src_x, src_y, width, height, dst_x, dst_y),
{
    let mut req: Vec<u8> = Vec::new();
    req.push(62u8);  // Opcode: CopyArea
    req.push(0u8);
    push_u16(&mut req, ByteOrder::LSBFirst, 7);  // Length: 7 words
    push_u32(&mut req, ByteOrder::LSBFirst, src);
    push_u32(&mut req, ByteOrder::LSBFirst, dst);
    push_u32(&mut req, ByteOrder::LSBFirst, gc_id);
    push_i16(&mut req, ByteOrder::LSBFirst, src_x);
    push_i16(&mut req, ByteOrder::LSBFirst, src_y);
    push_i16(&mut req, ByteOrder::LSBFirst, dst_x);
    push_i16(&mut req, ByteOrder::LSBFirst, dst_y);
    push_u16(&mut req, ByteOrder::LSBFirst, width);
    push_u16(&mut req, ByteOrder::LSBFirst, height);
    assert(req@ =~= copy_area_bytes(src, dst, gc_id, src_x, src_y, width, height, dst_x, dst_y));
    req
}

/// CreatePixmap on the screen of `drawable`.
pub open spec fn create_pixmap_bytes(pid: u32, drawable: u32, width: u16, height: u16, depth: u8) -> Seq<
    u8,
> {
    seq![53u8, depth] + l16(4) + l32(pid) + l32(drawable) + l16(width) + l16(height)
}

/// Builds a CreatePixmap request (opcode 53).
pub fn create_pixmap_request(pid: u32, drawable: u32, width: u16, height: u16, depth: u8) -> (r: Vec<
    u8,
>)
    ensures
        r@ == create_pixmap_bytes(pid, drawable, width, height, depth),
{
    let mut req: Vec<u8> = Vec::new();
    req.push(53u8);  // Opcode: CreatePixmap
    req.push(depth);  // depth in header byte
    push_u16(&mut req, ByteOrder::LSBFirst, 4);  // Length: 4 words
    push_u32(&mut req, ByteOrder::LSBFirst, pid);
    push_u32(&mut req, ByteOrder::LSBFirst, drawable);
    push_u16(&mut req, ByteOrder::LSBFirst, width);
    push_u16(&mut req, ByteOrder::LSBFirst, height);
    assert(req@ =~= create_pixmap_bytes(pid, drawable, width, height, depth));
    req
}

/// FreePixmap.
pub open spec fn free_pixmap_bytes(pid: u32) -> Seq<u8> {
    seq![54u8, 0u8] + l16(2) + l32(pid)
}

/// Builds a FreePixmap request (opcode 54).
pub fn free_pixmap_request(pid: u32) -> (r: Vec<u8>)
    ensures
        r@ == free_pixmap_bytes(pid),
{
    let mut req: Vec<u8> = Vec::new();
    req.push(54u8);  // Opcode: FreePixmap
    req.push(0u8);
    push_u16(&mut req, ByteOrder::LSBFirst, 2);  // Length: 2 words
    push_u32(&mut req, ByteOrder::LSBFirst, pid);
    assert(req@ =~= free_pixmap_bytes(pid));
    req
}

/// PutImage of `data`, padded to a multiple of four bytes, with no left padding.
pub open spec fn put_image_bytes(
    drawable: u32,
    gc_id: u32,
    width: u16,
    height: u16,
    dst_x: i16,
    dst_y: i16,
    depth: u8,
    format: u8,
    data: Seq<u8>,
) -> Seq<u8> {
    let total = 24 + data.len() + spec_pad(data.len() as int);
    seq![72u8, format] + l16((total / 4) as u16) + l32(drawable) + l32(gc_id) + l16(width) + l16(
        height,
    ) + li16(dst_x) + li16(dst_y) + seq![0u8, depth, 0u8, 0u8] + data + zeros(
        spec_pad(data.len() as int) as nat,
    )
}

/// Builds a PutImage request (opcode 72).
pub fn put_image_request(
    drawable: u32,
    gc_id: u32,
    width: u16,
    height: u16,
    dst_x: i16,
    dst_y: i16,
    depth: u8,
    format: u8,
    data: &[u8],
) -> (r: Vec<u8>)
    requires
        data@.len() + 27 <= usize::MAX,
    ensures
        r@ == put_image_bytes(drawable, gc_id, width, height, dst_x, dst_y, depth, format, data@),
{
    // Calculate padded data length
    let data_pad = pad(data.len());
    let total_len = 24 + data.len() + data_pad;
    let mut req: Vec<u8> = Vec::new();
    req.push(72u8);  // Opcode: PutImage
    req.push(format);  // format: 0=Bitmap, 1=XYPixmap, 2=ZPixmap
    push_u16(&mut req, ByteOrder::LSBFirst, (total_len / 4) as u16);
    push_u32(&mut req, ByteOrder::LSBFirst, drawable);
    push_u32(&mut req, ByteOrder::LSBFirst, gc_id);
    push_u16(&mut req, ByteOrder::LSBFirst, width);
    push_u16(&mut req, ByteOrder::LSBFirst, height);
    push_i16(&mut req, ByteOrder::LSBFirst, dst_x);
    push_i16(&mut req, ByteOrder::LSBFirst, dst_y);
    req.push(0u8);  // left_pad
    req.push(depth);
    push_zeros(&mut req, 2);
    push_bytes(&mut req, data);
    push_zeros(&mut req, data_pad);
    assert(req@ =~= put_image_bytes(
        drawable,
        gc_id,
        width,
        height,
        dst_x,
        dst_y,
        depth,
        format,
        data@,
    ));
    req
}

/// GetImage of a rectangle of `drawable`.
pub open spec fn get_image_bytes(
    drawable: u32,
    x: i16,
    y: i16,
    width: u16,
    height: u16,
    plane_mask: u32,
    format: u8,
) -> Seq<u8> {
    seq![73u8, format] + l16(5) + l32(drawable) + li16(x) + li16(y) + l16(width) + l16(height)
        + l32(plane_mask)
}

/// Builds a GetImage request (opcode 73).
pub fn get_image_request(
    drawable: u32,
    x: i16,
    y: i16,
    width: u16,
    height: u16,
    plane_mask: u32,
    format: u8,
) -> (r: Vec<u8>)
    ensures
        r@ == get_image_bytes(drawable, x, y, width, height, plane_mask, format),
{
    let mut req: Vec<u8> = Vec::new();
    req.push(73u8);  // Opcode: GetImage
    req.push(format);  // format: 1=XYPixmap, 2=ZPixmap
    push_u16(&mut req, ByteOrder::LSBFirst, 5);  // Length: 5 words
    push_u32(&mut req, ByteOrder::LSBFirst, drawable);
    push_i16(&mut req, ByteOrder::LSBFirst, x);
    push_i16(&mut req, ByteOrder::LSBFirst, y);
    push_u16(&mut req, ByteOrder::LSBFirst, width);
    push_u16(&mut req, ByteOrder::LSBFirst, height);
    push_u32(&mut req, ByteOrder::LSBFirst, plane_mask);
    assert(req@ =~= get_image_bytes(drawable, x, y, width, height, plane_mask, format));
    req
}

/// ListFonts of at most `max_names` names that match `pattern`.
pub open spec fn list_fonts_bytes(max_names: u16, pattern: Seq<u8>) -> Seq<u8> {
    let padded = pattern.len() + spec_pad(pattern.len() as int);
    seq![49u8, 0u8] + l16(((8 + padded) / 4) as u16) + l16(max_names) + l16(pattern.len() as u16)
        + pattern + zeros(spec_pad(pattern.len() as int) as nat)
}

/// Builds a ListFonts request (opcode 49).
pub fn list_fonts_request(max_names: u16, pattern: &str) -> (r: Vec<u8>)
    requires
        encode_utf8(pattern@).len() + 11 <= usize::MAX,
    ensures
        r@ == list_fonts_bytes(max_names, encode_utf8(pattern@)),
{
    let pattern_bytes = pattern.as_bytes();
    let padded = pattern_bytes.len() + pad(pattern_bytes.len());
    let mut req: Vec<u8> = Vec::new();
    req.push(49u8);  // Opcode: ListFonts
    req.push(0u8);
    push_u16(&mut req, ByteOrder::LSBFirst, ((8 + padded) / 4) as u16);
    push_u16(&mut req, ByteOrder::LSBFirst, max_names);
    push_u16(&mut req, ByteOrder::LSBFirst, pattern_bytes.len() as u16);
    push_bytes(&mut req, pattern_bytes);
    push_zeros(&mut req, pad(pattern_bytes.len()));
    assert(req@ =~= list_fonts_bytes(max_names, pattern_bytes@));
    req
}

/// The ListFonts request that asks for up to 1000 fonts in the XLFD form.
pub fn system_fonts_request() -> (r: Vec<u8>)
    ensures
        r@ == list_fonts_bytes(1000, encode_utf8("-*-*-*-*-*-*-*-*-*-*-*-*-*-*"@)),
{
    let pattern = "-*-*-*-*-*-*-*-*-*-*-*-*-*-*";
    proof {
        reveal_strlit("-*-*-*-*-*-*-*-*-*-*-*-*-*-*");
        assert(vstd::utf8::is_ascii_chars(pattern@));
        vstd::utf8::is_ascii_chars_encode_utf8(pattern@);
    }
    list_fonts_request(1000, pattern)
}

/// A window's requests as the backend sends them are requests that the request parser
/// of this library reads back: MapWindow names the same window.
pub proof fn lemma_map_window_reads_back(wid: u32, req: Request)
    ensures
        request_in_bounds(ByteOrder::LSBFirst, map_window_bytes(wid)),
        parse_error(ByteOrder::LSBFirst, map_window_bytes(wid)) is None,
        parsed_as(ByteOrder::LSBFirst, map_window_bytes(wid), req)
            <==> (req matches Request::MapWindow(
            r,
        ) && r.window == Window(XID(wid))),
{
    lemma_u16_roundtrip(ByteOrder::LSBFirst, 2);
    lemma_u32_roundtrip(ByteOrder::LSBFirst, wid);
    let b = map_window_bytes(wid);
    assert(b.subrange(4, 8).subrange(0, 4) =~= l32(wid));
}

/// A rectangle that the backend draws (opcode 67) or fills (opcode 70) reads back as
/// PolyRectangle or PolyFillRectangle of that one rectangle, on the same drawable and GC.
pub proof fn lemma_rectangle_reads_back(
    opcode: u8,
    drawable: u32,
    gc_id: u32,
    x: i16,
    y: i16,
    width: u16,
    height: u16,
    req: Request,
)
    requires
        opcode == 67 || opcode == 70,
    ensures
        request_in_bounds(ByteOrder::LSBFirst, rectangle_bytes(opcode, drawable, gc_id, x, y, width, height)),
        parse_error(ByteOrder::LSBFirst, rectangle_bytes(opcode, drawable, gc_id, x, y, width, height)) is None,
        parsed_as(ByteOrder::LSBFirst, rectangle_bytes(opcode, drawable, gc_id, x, y, width, height), req)
            <==> if opcode == 67 {
            req matches Request::PolyRectangle(r) && r.drawable == Drawable::Window(
                Window(XID(drawable)),
            ) && r.gc == GContext(XID(gc_id)) && r.rectangles@ == seq![
                Rectangle { x, y, width, height },
            ]
        } else {
            req matches Request::PolyFillRectangle(r) && r.drawable == Drawable::Window(
                Window(XID(drawable)),
            ) && r.gc == GContext(XID(gc_id)) && r.rectangles@ == seq![
                Rectangle { x, y, width, height },
            ]
        },
{
    lemma_u16_roundtrip(ByteOrder::LSBFirst, 5);
    lemma_u32_roundtrip(ByteOrder::LSBFirst, drawable);
    lemma_u32_roundtrip(ByteOrder::LSBFirst, gc_id);
    lemma_i16_roundtrip(ByteOrder::LSBFirst, x);
    lemma_i16_roundtrip(ByteOrder::LSBFirst, y);
    lemma_u16_roundtrip(ByteOrder::LSBFirst, width);
    lemma_u16_roundtrip(ByteOrder::LSBFirst, height);
    let b = rectangle_bytes(opcode, drawable, gc_id, x, y, width, height);
    let data = b.subrange(4, 20);
    assert(data =~= l32(drawable) + l32(gc_id) + li16(x) + li16(y) + l16(width) + l16(height));
    assert(crate::protocol::parser::rects_from(ByteOrder::LSBFirst, data, 8) =~= seq![
        Rectangle { x, y, width, height },
    ]);
}

/// A copy that the backend sends reads back as CopyArea between the same drawables,
/// with the same GC, positions and size.
pub proof fn lemma_copy_area_reads_back(
    src: u32,
    dst: u32,
    gc_id: u32,
    src_x: i16,
    src_y: i16,
    width: u16,
    height: u16,
    dst_x: i16,
    dst_y: i16,
    req: Request,
)
    ensures
        request_in_bounds(
            ByteOrder::LSBFirst,
            copy_area_bytes(src, dst, gc_id, src_x, src_y, width, height, dst_x, dst_y),
        ),
        parse_error(
            ByteOrder::LSBFirst,
            copy_area_bytes(src, dst, gc_id, src_x, src_y, width, height, dst_x, dst_y),
        ) is None,
        parsed_as(
            ByteOrder::LSBFirst,
            copy_area_bytes(src, dst, gc_id, src_x, src_y, width, height, dst_x, dst_y),
            req,
        ) <==> (req matches Request::CopyArea(r) && r.src_drawable == Drawable::Window(
            Window(XID(src)),
        ) && r.dst_drawable == Drawable::Window(Window(XID(dst))) && r.gc == GContext(XID(gc_id))
            && r.src_x == src_x && r.src_y == src_y && r.dst_x == dst_x && r.dst_y == dst_y
            && r.width == width && r.height == height),
{
    lemma_u16_roundtrip(ByteOrder::LSBFirst, 7);
    lemma_u32_roundtrip(ByteOrder::LSBFirst, src);
    lemma_u32_roundtrip(ByteOrder::LSBFirst, dst);
    lemma_u32_roundtrip(ByteOrder::LSBFirst, gc_id);
    lemma_i16_roundtrip(ByteOrder::LSBFirst, src_x);
    lemma_i16_roundtrip(ByteOrder::LSBFirst, src_y);
    lemma_i16_roundtrip(ByteOrder::LSBFirst, dst_x);
    lemma_i16_roundtrip(ByteOrder::LSBFirst, dst_y);
    lemma_u16_roundtrip(ByteOrder::LSBFirst, width);
    lemma_u16_roundtrip(ByteOrder::LSBFirst, height);
    let b = copy_area_bytes(src, dst, gc_id, src_x, src_y, width, height, dst_x, dst_y);
    assert(b.subrange(4, 28) =~= l32(src) + l32(dst) + l32(gc_id) + li16(src_x) + li16(src_y)
        + li16(dst_x) + li16(dst_y) + l16(width) + l16(height));
}

/// The pixmap requests that the backend sends read back as CreatePixmap and
/// FreePixmap of the same pixmap.
pub proof fn lemma_pixmap_requests_read_back(
    pid: u32,
    drawable: u32,
    width: u16,
    height: u16,
    depth: u8,
    req: Request,
)
    ensures
        request_in_bounds(ByteOrder::LSBFirst, create_pixmap_bytes(pid, drawable, width, height, depth)),
        parse_error(ByteOrder::LSBFirst, create_pixmap_bytes(pid, drawable, width, height, depth)) is None,
        parsed_as(ByteOrder::LSBFirst, create_pixmap_bytes(pid, drawable, width, height, depth), req)
            <==> (req matches Request::CreatePixmap(r) && r.depth == depth
                && r.pid == Pixmap(XID(pid))
            && r.drawable == Drawable::Window(Window(XID(drawable))) && r.width == width
                && r.height
            == height),
        request_in_bounds(ByteOrder::LSBFirst, free_pixmap_bytes(pid)),
        parse_error(ByteOrder::LSBFirst, free_pixmap_bytes(pid)) is None,
        parsed_as(ByteOrder::LSBFirst, free_pixmap_bytes(pid), req)
            <==> (req matches Request::FreePixmap(
            r,
        ) && r.pixmap == Pixmap(XID(pid))),
{
    lemma_u16_roundtrip(ByteOrder::LSBFirst, 4);
    lemma_u16_roundtrip(ByteOrder::LSBFirst, 2);
    lemma_u32_roundtrip(ByteOrder::LSBFirst, pid);
    lemma_u32_roundtrip(ByteOrder::LSBFirst, drawable);
    lemma_u16_roundtrip(ByteOrder::LSBFirst, width);
    lemma_u16_roundtrip(ByteOrder::LSBFirst, height);
    let c = create_pixmap_bytes(pid, drawable, width, height, depth);
    assert(c.subrange(4, 16) =~= l32(pid) + l32(drawable) + l16(width) + l16(height));
    let f = free_pixmap_bytes(pid);
    assert(f.subrange(4, 8) =~= l32(pid));
}

/// The CreateGC request that the backend sends carries the opcode 55, its length (7
/// with a font, else 6), the GC at 4, the drawable at 8, a value mask at 12 naming the
/// foreground and background (and the font when there is one), the foreground at 16,
/// the background at 20 and the font at 24.
pub proof fn lemma_create_gc_request_layout(
    gc_id: u32,
    drawable: u32,
    gc: BackendGC,
    font: Option<u32>,
)
    ensures
        ({
            let r = create_gc_bytes(gc_id, drawable, gc, font);
            &&& r[0] == 55
            &&& u32_at(ByteOrder::LSBFirst, r, 4) == gc_id
            &&& u32_at(ByteOrder::LSBFirst, r, 8) == drawable
            &&& u32_at(ByteOrder::LSBFirst, r, 16) == gc.foreground
            &&& u32_at(ByteOrder::LSBFirst, r, 20) == gc.background
            &&& r.len() == if font is Some { 28int } else { 24int }
            &&& u16_at(ByteOrder::LSBFirst, r, 2) == if font is Some { 7u16 } else { 6u16 }
            &&& u32_at(ByteOrder::LSBFirst, r, 12) == if font is Some { 0x0000_400cu32 } else { 0x0000_000cu32 }
            &&& font matches Some(f) ==> u32_at(ByteOrder::LSBFirst, r, 24) == f
        }),
{
    broadcast use group_wire_lengths;

    let r = create_gc_bytes(gc_id, drawable, gc, font);
    assert(r[0] == 55);
    assert(r.subrange(4, 8) =~= u32_bytes(ByteOrder::LSBFirst, gc_id));
    lemma_u32_read(ByteOrder::LSBFirst, r, 4, gc_id);
    assert(r.subrange(8, 12) =~= u32_bytes(ByteOrder::LSBFirst, drawable));
    lemma_u32_read(ByteOrder::LSBFirst, r, 8, drawable);
    assert(r.subrange(16, 20) =~= u32_bytes(ByteOrder::LSBFirst, gc.foreground));
    lemma_u32_read(ByteOrder::LSBFirst, r, 16, gc.foreground);
    assert(r.subrange(20, 24) =~= u32_bytes(ByteOrder::LSBFirst, gc.background));
    lemma_u32_read(ByteOrder::LSBFirst, r, 20, gc.background);
    match font {
        Some(f) => {
            assert(r.subrange(2, 4) =~= u16_bytes(ByteOrder::LSBFirst, 7));
            lemma_u16_read(ByteOrder::LSBFirst, r, 2, 7);
            assert(r.subrange(12, 16) =~= u32_bytes(ByteOrder::LSBFirst, 0x0000_400c));
            lemma_u32_read(ByteOrder::LSBFirst, r, 12, 0x0000_400c);
            assert(r.subrange(24, 28) =~= u32_bytes(ByteOrder::LSBFirst, f));
            lemma_u32_read(ByteOrder::LSBFirst, r, 24, f);
        },
        None => {
            assert(r.subrange(2, 4) =~= u16_bytes(ByteOrder::LSBFirst, 6));
            lemma_u16_read(ByteOrder::LSBFirst, r, 2, 6);
            assert(r.subrange(12, 16) =~= u32_bytes(ByteOrder::LSBFirst, 0x0000_000c));
            lemma_u32_read(ByteOrder::LSBFirst, r, 12, 0x0000_000c);
        },
    }
}

/// The ChangeGC request that the backend sends carries the opcode 56, the length 5,
/// the GC at 4, a value mask at 8 naming the foreground and background, the foreground
/// at 12 and the background at 16.
pub proof fn lemma_change_gc_request_layout(
    gc_id: u32,
    gc: BackendGC,
)
    ensures
        ({
            let r = change_gc_bytes(gc_id, gc);
            &&& r.len() == 20
            &&& r[0] == 56
            &&& u16_at(ByteOrder::LSBFirst, r, 2) == 5
            &&& u32_at(ByteOrder::LSBFirst, r, 4) == gc_id
            &&& u32_at(ByteOrder::LSBFirst, r, 8) == 0x0000_000c
            &&& u32_at(ByteOrder::LSBFirst, r, 12) == gc.foreground
            &&& u32_at(ByteOrder::LSBFirst, r, 16) == gc.background
        }),
{
    broadcast use group_wire_lengths;

    let r = change_gc_bytes(gc_id, gc);
    assert(r[0] == 56);
    assert(r.subrange(2, 4) =~= u16_bytes(ByteOrder::LSBFirst, 5));
    lemma_u16_read(ByteOrder::LSBFirst, r, 2, 5);
    assert(r.subrange(4, 8) =~= u32_bytes(ByteOrder::LSBFirst, gc_id));
    lemma_u32_read(ByteOrder::LSBFirst, r, 4, gc_id);
    assert(r.subrange(8, 12) =~= u32_bytes(ByteOrder::LSBFirst, 0x0000_000c));
    lemma_u32_read(ByteOrder::LSBFirst, r, 8, 0x0000_000c);
    assert(r.subrange(12, 16) =~= u32_bytes(ByteOrder::LSBFirst, gc.foreground));
    lemma_u32_read(ByteOrder::LSBFirst, r, 12, gc.foreground);
    assert(r.subrange(16, 20) =~= u32_bytes(ByteOrder::LSBFirst, gc.background));
    lemma_u32_read(ByteOrder::LSBFirst, r, 16, gc.background);
}

/// The OpenFont request that the backend sends carries the opcode 45, the font at 4,
/// the name's length at 8 and the name from offset 12 on.
pub proof fn lemma_open_font_request_layout(
    font_id: u32,
    name: Seq<u8>,
)
    ensures
        ({
            let r = open_font_bytes(font_id, name);
            &&& r[0] == 45
            &&& u32_at(ByteOrder::LSBFirst, r, 4) == font_id
            &&& u16_at(ByteOrder::LSBFirst, r, 8) == name.len() as u16
            &&& r.subrange(12, 12 + name.len() as int) == name
        }),
{
    broadcast use group_wire_lengths;

    let r = open_font_bytes(font_id, name);
    assert(r[0] == 45);
    assert(r.subrange(4, 8) =~= u32_bytes(ByteOrder::LSBFirst, font_id));
    lemma_u32_read(ByteOrder::LSBFirst, r, 4, font_id);
    assert(r.subrange(8, 10) =~= u16_bytes(ByteOrder::LSBFirst, name.len() as u16));
    lemma_u16_read(ByteOrder::LSBFirst, r, 8, name.len() as u16);
    assert(r.subrange(12, 12 + name.len() as int) =~= name);
}

/// The CreateWindow request that the backend sends carries the opcode 1, depth 24,
/// the window at 4, the parent at 8, the position at 12 and 14, the size at 16 and 18,
/// the border width at 20, the class InputOutput (1) at 22, the visual at 24 and the
/// value mask at 28.
pub proof fn lemma_create_window_request_layout(
    wid: u32,
    parent: u32,
    visual: u32,
    params: WindowParams,
)
    ensures
        ({
            let r = create_window_bytes(wid, parent, visual, params);
            &&& r[0] == 1
            &&& r[1] == 24
            &&& u32_at(ByteOrder::LSBFirst, r, 4) == wid
            &&& u32_at(ByteOrder::LSBFirst, r, 8) == parent
            &&& i16_at(ByteOrder::LSBFirst, r, 12) == params.x
            &&& i16_at(ByteOrder::LSBFirst, r, 14) == params.y
            &&& u16_at(ByteOrder::LSBFirst, r, 16) == params.width
            &&& u16_at(ByteOrder::LSBFirst, r, 18) == params.height
            &&& u16_at(ByteOrder::LSBFirst, r, 20) == params.border_width
            &&& u16_at(ByteOrder::LSBFirst, r, 22) == 1
            &&& u32_at(ByteOrder::LSBFirst, r, 24) == visual
            &&& u32_at(ByteOrder::LSBFirst, r, 28) == window_values(params).0
        }),
{
    broadcast use group_wire_lengths;

    let r = create_window_bytes(wid, parent, visual, params);
    assert(r[0] == 1);
    assert(r[1] == 24);
    assert(r.subrange(4, 8) =~= u32_bytes(ByteOrder::LSBFirst, wid));
    lemma_u32_read(ByteOrder::LSBFirst, r, 4, wid);
    assert(r.subrange(8, 12) =~= u32_bytes(ByteOrder::LSBFirst, parent));
    lemma_u32_read(ByteOrder::LSBFirst, r, 8, parent);
    assert(r.subrange(12, 14) =~= i16_bytes(ByteOrder::LSBFirst, params.x));
    lemma_i16_read(ByteOrder::LSBFirst, r, 12, params.x);
    assert(r.subrange(14, 16) =~= i16_bytes(ByteOrder::LSBFirst, params.y));
    lemma_i16_read(ByteOrder::LSBFirst, r, 14, params.y);
    assert(r.subrange(16, 18) =~= u16_bytes(ByteOrder::LSBFirst, params.width));
    lemma_u16_read(ByteOrder::LSBFirst, r, 16, params.width);
    assert(r.subrange(18, 20) =~= u16_bytes(ByteOrder::LSBFirst, params.height));
    lemma_u16_read(ByteOrder::LSBFirst, r, 18, params.height);
    assert(r.subrange(20, 22) =~= u16_bytes(ByteOrder::LSBFirst, params.border_width));
    lemma_u16_read(ByteOrder::LSBFirst, r, 20, params.border_width);
    assert(r.subrange(22, 24) =~= u16_bytes(ByteOrder::LSBFirst, 1));
    lemma_u16_read(ByteOrder::LSBFirst, r, 22, 1);
    assert(r.subrange(24, 28) =~= u32_bytes(ByteOrder::LSBFirst, visual));
    lemma_u32_read(ByteOrder::LSBFirst, r, 24, visual);
    assert(r.subrange(28, 32) =~= u32_bytes(ByteOrder::LSBFirst, window_values(params).0));
    lemma_u32_read(ByteOrder::LSBFirst, r, 28, window_values(params).0);
}

/// The ConfigureWindow request that restacks a window carries the opcode 12, the
/// length 4, the window at 4, the stack-mode value mask at 8 and the stack mode at 12.
pub proof fn lemma_restack_window_request_layout(
    wid: u32,
    stack_mode: u32,
)
    ensures
        ({
            let r = restack_window_bytes(wid, stack_mode);
            &&& r.len() == 16
            &&& r[0] == 12
            &&& u16_at(ByteOrder::LSBFirst, r, 2) == 4
            &&& u32_at(ByteOrder::LSBFirst, r, 4) == wid
            &&& u16_at(ByteOrder::LSBFirst, r, 8) == 0x0040
            &&& u32_at(ByteOrder::LSBFirst, r, 12) == stack_mode
        }),
{
    broadcast use group_wire_lengths;

    let r = restack_window_bytes(wid, stack_mode);
    assert(r[0] == 12);
    assert(r.subrange(2, 4) =~= u16_bytes(ByteOrder::LSBFirst, 4));
    lemma_u16_read(ByteOrder::LSBFirst, r, 2, 4);
    assert(r.subrange(4, 8) =~= u32_bytes(ByteOrder::LSBFirst, wid));
    lemma_u32_read(ByteOrder::LSBFirst, r, 4, wid);
    assert(r.subrange(8, 10) =~= u16_bytes(ByteOrder::LSBFirst, 0x0040));
    lemma_u16_read(ByteOrder::LSBFirst, r, 8, 0x0040);
    assert(r.subrange(12, 16) =~= u32_bytes(ByteOrder::LSBFirst, stack_mode));
    lemma_u32_read(ByteOrder::LSBFirst, r, 12, stack_mode);
}

/// The ChangeProperty request that sets a title carries the opcode 18, the window at
/// 4, the property WM_NAME (39) at 8, the type STRING (31) at 12, format 8 at 16, the
/// title's length at 20 and the title from offset 24 on.
pub proof fn lemma_set_title_request_layout(
    wid: u32,
    title: Seq<u8>,
)
    ensures
        ({
            let r = set_title_bytes(wid, title);
            &&& r[0] == 18
            &&& u32_at(ByteOrder::LSBFirst, r, 4) == wid
            &&& u32_at(ByteOrder::LSBFirst, r, 8) == 39
            &&& u32_at(ByteOrder::LSBFirst, r, 12) == 31
            &&& r[16] == 8
            &&& u32_at(ByteOrder::LSBFirst, r, 20) == title.len() as u32
            &&& r.subrange(24, 24 + title.len() as int) == title
        }),
{
    broadcast use group_wire_lengths;

    let r = set_title_bytes(wid, title);
    assert(r[0] == 18);
    assert(r.subrange(4, 8) =~= u32_bytes(ByteOrder::LSBFirst, wid));
    lemma_u32_read(ByteOrder::LSBFirst, r, 4, wid);
    assert(r.subrange(8, 12) =~= u32_bytes(ByteOrder::LSBFirst, 39));
    lemma_u32_read(ByteOrder::LSBFirst, r, 8, 39);
    assert(r.subrange(12, 16) =~= u32_bytes(ByteOrder::LSBFirst, 31));
    lemma_u32_read(ByteOrder::LSBFirst, r, 12, 31);
    assert(r[16] == 8);
    assert(r.subrange(20, 24) =~= u32_bytes(ByteOrder::LSBFirst, title.len() as u32));
    lemma_u32_read(ByteOrder::LSBFirst, r, 20, title.len() as u32);
    assert(r.subrange(24, 24 + title.len() as int) =~= title);
}

/// The PolySegment request for one segment carries the opcode 66, the length 5, the
/// drawable at 4, the GC at 8, and the segment's ends at 12, 14 and 16, 18.
pub proof fn lemma_segment_request_layout(
    drawable: u32,
    gc_id: u32,
    x1: i16,
    y1: i16,
    x2: i16,
    y2: i16,
)
    ensures
        ({
            let r = segment_bytes(drawable, gc_id, x1, y1, x2, y2);
            &&& r.len() == 20
            &&& r[0] == 66
            &&& u16_at(ByteOrder::LSBFirst, r, 2) == 5
            &&& u32_at(ByteOrder::LSBFirst, r, 4) == drawable
            &&& u32_at(ByteOrder::LSBFirst, r, 8) == gc_id
            &&& i16_at(ByteOrder::LSBFirst, r, 12) == x1
            &&& i16_at(ByteOrder::LSBFirst, r, 14) == y1
            &&& i16_at(ByteOrder::LSBFirst, r, 16) == x2
            &&& i16_at(ByteOrder::LSBFirst, r, 18) == y2
        }),
{
    broadcast use group_wire_lengths;

    let r = segment_bytes(drawable, gc_id, x1, y1, x2, y2);
    assert(r[0] == 66);
    assert(r.subrange(2, 4) =~= u16_bytes(ByteOrder::LSBFirst, 5));
    lemma_u16_read(ByteOrder::LSBFirst, r, 2, 5);
    assert(r.subrange(4, 8) =~= u32_bytes(ByteOrder::LSBFirst, drawable));
    lemma_u32_read(ByteOrder::LSBFirst, r, 4, drawable);
    assert(r.subrange(8, 12) =~= u32_bytes(ByteOrder::LSBFirst, gc_id));
    lemma_u32_read(ByteOrder::LSBFirst, r, 8, gc_id);
    assert(r.subrange(12, 14) =~= i16_bytes(ByteOrder::LSBFirst, x1));
    lemma_i16_read(ByteOrder::LSBFirst, r, 12, x1);
    assert(r.subrange(14, 16) =~= i16_bytes(ByteOrder::LSBFirst, y1));
    lemma_i16_read(ByteOrder::LSBFirst, r, 14, y1);
    assert(r.subrange(16, 18) =~= i16_bytes(ByteOrder::LSBFirst, x2));
    lemma_i16_read(ByteOrder::LSBFirst, r, 16, x2);
    assert(r.subrange(18, 20) =~= i16_bytes(ByteOrder::LSBFirst, y2));
    lemma_i16_read(ByteOrder::LSBFirst, r, 18, y2);
}

/// A rectangle request carries its opcode, the length 5, the drawable at 4, the GC
/// at 8, the position at 12 and 14 and the size at 16 and 18.
pub proof fn lemma_rectangle_request_layout(
    opcode: u8,
    drawable: u32,
    gc_id: u32,
    x: i16,
    y: i16,
    width: u16,
    height: u16,
)
    ensures
        ({
            let r = rectangle_bytes(opcode, drawable, gc_id, x, y, width, height);
            &&& r.len() == 20
            &&& r[0] == opcode
            &&& u16_at(ByteOrder::LSBFirst, r, 2) == 5
            &&& u32_at(ByteOrder::LSBFirst, r, 4) == drawable
            &&& u32_at(ByteOrder::LSBFirst, r, 8) == gc_id
            &&& i16_at(ByteOrder::LSBFirst, r, 12) == x
            &&& i16_at(ByteOrder::LSBFirst, r, 14) == y
            &&& u16_at(ByteOrder::LSBFirst, r, 16) == width
            &&& u16_at(ByteOrder::LSBFirst, r, 18) == height
        }),
{
    broadcast use group_wire_lengths;

    let r = rectangle_bytes(opcode, drawable, gc_id, x, y, width, height);
    assert(r[0] == opcode);
    assert(r.subrange(2, 4) =~= u16_bytes(ByteOrder::LSBFirst, 5));
    lemma_u16_read(ByteOrder::LSBFirst, r, 2, 5);
    assert(r.subrange(4, 8) =~= u32_bytes(ByteOrder::LSBFirst, drawable));
    lemma_u32_read(ByteOrder::LSBFirst, r, 4, drawable);
    assert(r.subrange(8, 12) =~= u32_bytes(ByteOrder::LSBFirst, gc_id));
    lemma_u32_read(ByteOrder::LSBFirst, r, 8, gc_id);
    assert(r.subrange(12, 14) =~= i16_bytes(ByteOrder::LSBFirst, x));
    lemma_i16_read(ByteOrder::LSBFirst, r, 12, x);
    assert(r.subrange(14, 16) =~= i16_bytes(ByteOrder::LSBFirst, y));
    lemma_i16_read(ByteOrder::LSBFirst, r, 14, y);
    assert(r.subrange(16, 18) =~= u16_bytes(ByteOrder::LSBFirst, width));
    lemma_u16_read(ByteOrder::LSBFirst, r, 16, width);
    assert(r.subrange(18, 20) =~= u16_bytes(ByteOrder::LSBFirst, height));
    lemma_u16_read(ByteOrder::LSBFirst, r, 18, height);
}

/// The CopyArea request carries the opcode 62, the length 7, the source at 4, the
/// destination at 8, the GC at 12, the source position at 16 and 18, the destination
/// position at 20 and 22 and the size at 24 and 26.
pub proof fn lemma_copy_area_request_layout(
    src: u32,
    dst: u32,
    gc_id: u32,
    src_x: i16,
    src_y: i16,
    width: u16,
    height: u16,
    dst_x: i16,
    dst_y: i16,
)
    ensures
        ({
            let r = copy_area_bytes(src, dst, gc_id, src_x, src_y, width, height, dst_x, dst_y);
            &&& r.len() == 28
            &&& r[0] == 62
            &&& u16_at(ByteOrder::LSBFirst, r, 2) == 7
            &&& u32_at(ByteOrder::LSBFirst, r, 4) == src
            &&& u32_at(ByteOrder::LSBFirst, r, 8) == dst
            &&& u32_at(ByteOrder::LSBFirst, r, 12) == gc_id
            &&& i16_at(ByteOrder::LSBFirst, r, 16) == src_x
            &&& i16_at(ByteOrder::LSBFirst, r, 18) == src_y
            &&& i16_at(ByteOrder::LSBFirst, r, 20) == dst_x
            &&& i16_at(ByteOrder::LSBFirst, r, 22) == dst_y
            &&& u16_at(ByteOrder::LSBFirst, r, 24) == width
            &&& u16_at(ByteOrder::LSBFirst, r, 26) == height
        }),
{
    broadcast use group_wire_lengths;

    let r = copy_area_bytes(src, dst, gc_id, src_x, src_y, width, height, dst_x, dst_y);
    assert(r[0] == 62);
    assert(r.subrange(2, 4) =~= u16_bytes(ByteOrder::LSBFirst, 7));
    lemma_u16_read(ByteOrder::LSBFirst, r, 2, 7);
    assert(r.subrange(4, 8) =~= u32_bytes(ByteOrder::LSBFirst, src));
    lemma_u32_read(ByteOrder::LSBFirst, r, 4, src);
    assert(r.subrange(8, 12) =~= u32_bytes(ByteOrder::LSBFirst, dst));
    lemma_u32_read(ByteOrder::LSBFirst, r, 8, dst);
    assert(r.subrange(12, 16) =~= u32_bytes(ByteOrder::LSBFirst, gc_id));
    lemma_u32_read(ByteOrder::LSBFirst, r, 12, gc_id);
    assert(r.subrange(16, 18) =~= i16_bytes(ByteOrder::LSBFirst, src_x));
    lemma_i16_read(ByteOrder::LSBFirst, r, 16, src_x);
    assert(r.subrange(18, 20) =~= i16_bytes(ByteOrder::LSBFirst, src_y));
    lemma_i16_read(ByteOrder::LSBFirst, r, 18, src_y);
    assert(r.subrange(20, 22) =~= i16_bytes(ByteOrder::LSBFirst, dst_x));
    lemma_i16_read(ByteOrder::LSBFirst, r, 20, dst_x);
    assert(r.subrange(22, 24) =~= i16_bytes(ByteOrder::LSBFirst, dst_y));
    lemma_i16_read(ByteOrder::LSBFirst, r, 22, dst_y);
    assert(r.subrange(24, 26) =~= u16_bytes(ByteOrder::LSBFirst, width));
    lemma_u16_read(ByteOrder::LSBFirst, r, 24, width);
    assert(r.subrange(26, 28) =~= u16_bytes(ByteOrder::LSBFirst, height));
    lemma_u16_read(ByteOrder::LSBFirst, r, 26, height);
}

/// The CreatePixmap request carries the opcode 53, the depth at 1, the length 4, the
/// pixmap at 4, the drawable at 8 and the size at 12 and 14.
pub proof fn lemma_create_pixmap_request_layout(
    pid: u32,
    drawable: u32,
    width: u16,
    height: u16,
    depth: u8,
)
    ensures
        ({
            let r = create_pixmap_bytes(pid, drawable, width, height, depth);
            &&& r.len() == 16
            &&& r[0] == 53
            &&& r[1] == depth
            &&& u16_at(ByteOrder::LSBFirst, r, 2) == 4
            &&& u32_at(ByteOrder::LSBFirst, r, 4) == pid
            &&& u32_at(ByteOrder::LSBFirst, r, 8) == drawable
            &&& u16_at(ByteOrder::LSBFirst, r, 12) == width
            &&& u16_at(ByteOrder::LSBFirst, r, 14) == height
        }),
{
    broadcast use group_wire_lengths;

    let r = create_pixmap_bytes(pid, drawable, width, height, depth);
    assert(r[0] == 53);
    assert(r[1] == depth);
    assert(r.subrange(2, 4) =~= u16_bytes(ByteOrder::LSBFirst, 4));
    lemma_u16_read(ByteOrder::LSBFirst, r, 2, 4);
    assert(r.subrange(4, 8) =~= u32_bytes(ByteOrder::LSBFirst, pid));
    lemma_u32_read(ByteOrder::LSBFirst, r, 4, pid);
    assert(r.subrange(8, 12) =~= u32_bytes(ByteOrder::LSBFirst, drawable));
    lemma_u32_read(ByteOrder::LSBFirst, r, 8, drawable);
    assert(r.subrange(12, 14) =~= u16_bytes(ByteOrder::LSBFirst, width));
    lemma_u16_read(ByteOrder::LSBFirst, r, 12, width);
    assert(r.subrange(14, 16) =~= u16_bytes(ByteOrder::LSBFirst, height));
    lemma_u16_read(ByteOrder::LSBFirst, r, 14, height);
}

/// The PutImage request carries the opcode 72, the format at 1, the drawable at 4,
/// the GC at 8, the size at 12 and 14, the destination at 16 and 18, the depth at 21
/// and the image data from offset 24 on.
pub proof fn lemma_put_image_request_layout(
    drawable: u32,
    gc_id: u32,
    width: u16,
    height: u16,
    dst_x: i16,
    dst_y: i16,
    depth: u8,
    format: u8,
    data: Seq<u8>,
)
    ensures
        ({
            let r = put_image_bytes(drawable, gc_id, width, height, dst_x, dst_y, depth, format, data);
            &&& r[0] == 72
            &&& r[1] == format
            &&& u32_at(ByteOrder::LSBFirst, r, 4) == drawable
            &&& u32_at(ByteOrder::LSBFirst, r, 8) == gc_id
            &&& u16_at(ByteOrder::LSBFirst, r, 12) == width
            &&& u16_at(ByteOrder::LSBFirst, r, 14) == height
            &&& i16_at(ByteOrder::LSBFirst, r, 16) == dst_x
            &&& i16_at(ByteOrder::LSBFirst, r, 18) == dst_y
            &&& r[20] == 0
            &&& r[21] == depth
            &&& r.subrange(24, 24 + data.len() as int) == data
        }),
{
    broadcast use group_wire_lengths;

    let r = put_image_bytes(drawable, gc_id, width, height, dst_x, dst_y, depth, format, data);
    assert(r[0] == 72);
    assert(r[1] == format);
    assert(r.subrange(4, 8) =~= u32_bytes(ByteOrder::LSBFirst, drawable));
    lemma_u32_read(ByteOrder::LSBFirst, r, 4, drawable);
    assert(r.subrange(8, 12) =~= u32_bytes(ByteOrder::LSBFirst, gc_id));
    lemma_u32_read(ByteOrder::LSBFirst, r, 8, gc_id);
    assert(r.subrange(12, 14) =~= u16_bytes(ByteOrder::LSBFirst, width));
    lemma_u16_read(ByteOrder::LSBFirst, r, 12, width);
    assert(r.subrange(14, 16) =~= u16_bytes(ByteOrder::LSBFirst, height));
    lemma_u16_read(ByteOrder::LSBFirst, r, 14, height);
    assert(r.subrange(16, 18) =~= i16_bytes(ByteOrder::LSBFirst, dst_x));
    lemma_i16_read(ByteOrder::LSBFirst, r, 16, dst_x);
    assert(r.subrange(18, 20) =~= i16_bytes(ByteOrder::LSBFirst, dst_y));
    lemma_i16_read(ByteOrder::LSBFirst, r, 18, dst_y);
    assert(r[20] == 0);
    assert(r[21] == depth);
    assert(r.subrange(24, 24 + data.len() as int) =~= data);
}

/// The GetImage request carries the opcode 73, the format at 1, the length 5, the
/// drawable at 4, the position at 8 and 10, the size at 12 and 14 and the plane mask at
/// 16.
pub proof fn lemma_get_image_request_layout(
    drawable: u32,
    x: i16,
    y: i16,
    width: u16,
    height: u16,
    plane_mask: u32,
    format: u8,
)
    ensures
        ({
            let r = get_image_bytes(drawable, x, y, width, height, plane_mask, format);
            &&& r.len() == 20
            &&& r[0] == 73
            &&& r[1] == format
            &&& u16_at(ByteOrder::LSBFirst, r, 2) == 5
            &&& u32_at(ByteOrder::LSBFirst, r, 4) == drawable
            &&& i16_at(ByteOrder::LSBFirst, r, 8) == x
            &&& i16_at(ByteOrder::LSBFirst, r, 10) == y
            &&& u16_at(ByteOrder::LSBFirst, r, 12) == width
            &&& u16_at(ByteOrder::LSBFirst, r, 14) == height
            &&& u32_at(ByteOrder::LSBFirst, r, 16) == plane_mask
        }),
{
    broadcast use group_wire_lengths;

    let r = get_image_bytes(drawable, x, y, width, height, plane_mask, format);
    assert(r[0] == 73);
    assert(r[1] == format);
    assert(r.subrange(2, 4) =~= u16_bytes(ByteOrder::LSBFirst, 5));
    lemma_u16_read(ByteOrder::LSBFirst, r, 2, 5);
    assert(r.subrange(4, 8) =~= u32_bytes(ByteOrder::LSBFirst, drawable));
    lemma_u32_read(ByteOrder::LSBFirst, r, 4, drawable);
    assert(r.subrange(8, 10) =~= i16_bytes(ByteOrder::LSBFirst, x));
    lemma_i16_read(ByteOrder::LSBFirst, r, 8, x);
    assert(r.subrange(10, 12) =~= i16_bytes(ByteOrder::LSBFirst, y));
    lemma_i16_read(ByteOrder::LSBFirst, r, 10, y);
    assert(r.subrange(12, 14) =~= u16_bytes(ByteOrder::LSBFirst, width));
    lemma_u16_read(ByteOrder::LSBFirst, r, 12, width);
    assert(r.subrange(14, 16) =~= u16_bytes(ByteOrder::LSBFirst, height));
    lemma_u16_read(ByteOrder::LSBFirst, r, 14, height);
    assert(r.subrange(16, 20) =~= u32_bytes(ByteOrder::LSBFirst, plane_mask));
    lemma_u32_read(ByteOrder::LSBFirst, r, 16, plane_mask);
}

/// The ImageText8 request carries the opcode 76, the text's length at 1, the
/// drawable at 4, the GC at 8, the position at 12 and 14 and the text from offset 16 on.
pub proof fn lemma_image_text_request_layout(
    drawable: u32,
    gc_id: u32,
    x: i16,
    y: i16,
    bytes: Seq<u8>,
)
    ensures
        ({
            let r = image_text_bytes(drawable, gc_id, x, y, bytes);
            &&& r[0] == 76
            &&& r[1] == bytes.len() as u8
            &&& u32_at(ByteOrder::LSBFirst, r, 4) == drawable
            &&& u32_at(ByteOrder::LSBFirst, r, 8) == gc_id
            &&& i16_at(ByteOrder::LSBFirst, r, 12) == x
            &&& i16_at(ByteOrder::LSBFirst, r, 14) == y
            &&& r.subrange(16, 16 + bytes.len() as int) == bytes
        }),
{
    broadcast use group_wire_lengths;

    let r = image_text_bytes(drawable, gc_id, x, y, bytes);
    assert(r[0] == 76);
    assert(r[1] == bytes.len() as u8);
    assert(r.subrange(4, 8) =~= u32_bytes(ByteOrder::LSBFirst, drawable));
    lemma_u32_read(ByteOrder::LSBFirst, r, 4, drawable);
    assert(r.subrange(8, 12) =~= u32_bytes(ByteOrder::LSBFirst, gc_id));
    lemma_u32_read(ByteOrder::LSBFirst, r, 8, gc_id);
    assert(r.subrange(12, 14) =~= i16_bytes(ByteOrder::LSBFirst, x));
    lemma_i16_read(ByteOrder::LSBFirst, r, 12, x);
    assert(r.subrange(14, 16) =~= i16_bytes(ByteOrder::LSBFirst, y));
    lemma_i16_read(ByteOrder::LSBFirst, r, 14, y);
    assert(r.subrange(16, 16 + bytes.len() as int) =~= bytes);
}

/// The ListFonts request carries the opcode 49, the most names to list at 4, the
/// pattern's length at 6 and the pattern from offset 8 on.
pub proof fn lemma_list_fonts_request_layout(
    max_names: u16,
    pattern: Seq<u8>,
)
    ensures
        ({
            let r = list_fonts_bytes(max_names, pattern);
            &&& r[0] == 49
            &&& u16_at(ByteOrder::LSBFirst, r, 4) == max_names
            &&& u16_at(ByteOrder::LSBFirst, r, 6) == pattern.len() as u16
            &&& r.subrange(8, 8 + pattern.len() as int) == pattern
        }),
{
    broadcast use group_wire_lengths;

    let r = list_fonts_bytes(max_names, pattern);
    assert(r[0] == 49);
    assert(r.subrange(4, 6) =~= u16_bytes(ByteOrder::LSBFirst, max_names));
    lemma_u16_read(ByteOrder::LSBFirst, r, 4, max_names);
    assert(r.subrange(6, 8) =~= u16_bytes(ByteOrder::LSBFirst, pattern.len() as u16));
    lemma_u16_read(ByteOrder::LSBFirst, r, 6, pattern.len() as u16);
    assert(r.subrange(8, 8 + pattern.len() as int) =~= pattern);
}

/// The points take four bytes each: the one at position `i` has its x at `4 * i` and
/// its y at `4 * i + 2`.
pub proof fn lemma_points_bytes_layout(points: Seq<Point>)
    ensures
        points_bytes(points).len() == 4 * points.len(),
        forall|i: int|
            0 <= i < points.len() ==> i16_at(ByteOrder::LSBFirst, points_bytes(points), 4 * i)
                == (#[trigger] points[i]).x && i16_at(
                ByteOrder::LSBFirst,
                points_bytes(points),
                4 * i + 2,
            ) == points[i].y,
    decreases points.len(),
{
    broadcast use group_wire_lengths;

    if points.len() > 0 {
        let init = points.drop_last();
        lemma_points_bytes_layout(init);
        let b = points_bytes(points);
        let ib = points_bytes(init);
        assert forall|i: int| 0 <= i < points.len() implies i16_at(ByteOrder::LSBFirst, b, 4 * i)
            == (#[trigger] points[i]).x && i16_at(ByteOrder::LSBFirst, b, 4 * i + 2)
            == points[i].y by {
            if i < init.len() {
                assert(points[i] == init[i]);
                assert(b[4 * i] == ib[4 * i] && b[4 * i + 1] == ib[4 * i + 1]);
                assert(b[4 * i + 2] == ib[4 * i + 2] && b[4 * i + 3] == ib[4 * i + 3]);
            } else {
                assert(b.subrange(4 * i, 4 * i + 2) =~= li16(points.last().x));
                assert(b.subrange(4 * i + 2, 4 * i + 4) =~= li16(points.last().y));
                lemma_i16_read(ByteOrder::LSBFirst, b, 4 * i, points.last().x);
                lemma_i16_read(ByteOrder::LSBFirst, b, 4 * i + 2, points.last().y);
            }
        }
    }
}

/// The PolyPoint request carries the opcode 64, the length, the drawable at 4, the
/// GC at 8, and point `i` at `12 + 4 * i` (x) and `14 + 4 * i` (y).
pub proof fn lemma_poly_point_request_layout(drawable: u32, gc_id: u32, points: Seq<Point>)
    ensures
        ({
            let r = poly_point_bytes(drawable, gc_id, points);
            &&& r.len() == 12 + 4 * points.len()
            &&& r[0] == 64
            &&& u16_at(ByteOrder::LSBFirst, r, 2) == (3 + (points.len() as u16)) as u16
            &&& u32_at(ByteOrder::LSBFirst, r, 4) == drawable
            &&& u32_at(ByteOrder::LSBFirst, r, 8) == gc_id
            &&& forall|i: int|
                0 <= i < points.len() ==> i16_at(ByteOrder::LSBFirst, r, 12 + 4 * i)
                    == (#[trigger] points[i]).x && i16_at(ByteOrder::LSBFirst, r, 14 + 4 * i)
                    == points[i].y
        }),
{
    broadcast use group_wire_lengths;

    let r = poly_point_bytes(drawable, gc_id, points);
    let pb = points_bytes(points);
    lemma_points_bytes_layout(points);
    assert(r.subrange(2, 4) =~= l16((3 + (points.len() as u16)) as u16));
    lemma_u16_read(ByteOrder::LSBFirst, r, 2, (3 + (points.len() as u16)) as u16);
    assert(r.subrange(4, 8) =~= l32(drawable));
    lemma_u32_read(ByteOrder::LSBFirst, r, 4, drawable);
    assert(r.subrange(8, 12) =~= l32(gc_id));
    lemma_u32_read(ByteOrder::LSBFirst, r, 8, gc_id);
    assert forall|i: int| 0 <= i < points.len() implies i16_at(ByteOrder::LSBFirst, r, 12 + 4 * i)
        == (#[trigger] points[i]).x && i16_at(ByteOrder::LSBFirst, r, 14
            + 4 * i) == points[i].y by {
        assert(r[12 + 4 * i] == pb[4 * i] && r[13 + 4 * i] == pb[4 * i + 1]);
        assert(r[14 + 4 * i] == pb[4 * i + 2] && r[15 + 4 * i] == pb[4 * i + 3]);
    }
}

/// The FillPoly request carries the opcode 69, the drawable at 4, the GC at 8, the
/// shape Convex (2) at 12, and point `i` at `16 + 4 * i` (x) and `18 + 4 * i` (y).
pub proof fn lemma_fill_poly_request_layout(drawable: u32, gc_id: u32, points: Seq<Point>)
    ensures
        ({
            let r = fill_poly_bytes(drawable, gc_id, points);
            &&& r.len() == 16 + 4 * points.len()
            &&& r[0] == 69
            &&& u16_at(ByteOrder::LSBFirst, r, 2) == (4 + (points.len() as u16)) as u16
            &&& u32_at(ByteOrder::LSBFirst, r, 4) == drawable
            &&& u32_at(ByteOrder::LSBFirst, r, 8) == gc_id
            &&& r[12] == 2
            &&& forall|i: int|
                0 <= i < points.len() ==> i16_at(ByteOrder::LSBFirst, r, 16 + 4 * i)
                    == (#[trigger] points[i]).x && i16_at(ByteOrder::LSBFirst, r, 18 + 4 * i)
                    == points[i].y
        }),
{
    broadcast use group_wire_lengths;

    let r = fill_poly_bytes(drawable, gc_id, points);
    let pb = points_bytes(points);
    lemma_points_bytes_layout(points);
    assert(r.subrange(2, 4) =~= l16((4 + (points.len() as u16)) as u16));
    lemma_u16_read(ByteOrder::LSBFirst, r, 2, (4 + (points.len() as u16)) as u16);
    assert(r.subrange(4, 8) =~= l32(drawable));
    lemma_u32_read(ByteOrder::LSBFirst, r, 4, drawable);
    assert(r.subrange(8, 12) =~= l32(gc_id));
    lemma_u32_read(ByteOrder::LSBFirst, r, 8, gc_id);
    assert forall|i: int| 0 <= i < points.len() implies i16_at(ByteOrder::LSBFirst, r, 16 + 4 * i)
        == (#[trigger] points[i]).x && i16_at(ByteOrder::LSBFirst, r, 18
            + 4 * i) == points[i].y by {
        assert(r[16 + 4 * i] == pb[4 * i] && r[17 + 4 * i] == pb[4 * i + 1]);
        assert(r[18 + 4 * i] == pb[4 * i + 2] && r[19 + 4 * i] == pb[4 * i + 3]);
    }
}

/// The arcs take twelve bytes each: the one at position `i` has its x, y, width,
/// height and two angles at `12 * i` and the five offsets two apart after it.
pub proof fn lemma_arcs_bytes_layout(arcs: Seq<Arc>)
    ensures
        arcs_bytes(arcs).len() == 12 * arcs.len(),
        forall|i: int|
            0 <= i < arcs.len() ==> i16_at(ByteOrder::LSBFirst, arcs_bytes(arcs), 12 * i
                + 0) == (#[trigger] arcs[i]).x
                && i16_at(ByteOrder::LSBFirst, arcs_bytes(arcs), 12 * i + 2) == arcs[i].y
                && u16_at(ByteOrder::LSBFirst, arcs_bytes(arcs), 12 * i + 4) == arcs[i].width
                && u16_at(ByteOrder::LSBFirst, arcs_bytes(arcs), 12 * i + 6) == arcs[i].height
                && i16_at(ByteOrder::LSBFirst, arcs_bytes(arcs), 12 * i + 8) == arcs[i].angle1
                && i16_at(ByteOrder::LSBFirst, arcs_bytes(arcs), 12 * i + 10) == arcs[i].angle2,
    decreases arcs.len(),
{
    broadcast use group_wire_lengths;

    if arcs.len() > 0 {
        let init = arcs.drop_last();
        lemma_arcs_bytes_layout(init);
        let b = arcs_bytes(arcs);
        let ib = arcs_bytes(init);
        assert forall|i: int| 0 <= i < arcs.len() implies i16_at(ByteOrder::LSBFirst, b, 12 * i
            + 0) == (#[trigger] arcs[i]).x && i16_at(ByteOrder::LSBFirst, b, 12 * i
            + 2) == arcs[i].y && u16_at(ByteOrder::LSBFirst, b, 12 * i + 4) == arcs[i].width
            && u16_at(ByteOrder::LSBFirst, b, 12 * i + 6) == arcs[i].height
            && i16_at(ByteOrder::LSBFirst, b, 12 * i + 8) == arcs[i].angle1
            && i16_at(ByteOrder::LSBFirst, b, 12 * i + 10) == arcs[i].angle2 by {
            if i < init.len() {
                assert(arcs[i] == init[i]);
                assert(b[12 * i] == ib[12 * i] && b[12 * i + 1] == ib[12 * i + 1]);
                assert(b[12 * i + 2] == ib[12 * i + 2] && b[12 * i + 3] == ib[12 * i + 3]);
                assert(b[12 * i + 4] == ib[12 * i + 4] && b[12 * i + 5] == ib[12 * i + 5]);
                assert(b[12 * i + 6] == ib[12 * i + 6] && b[12 * i + 7] == ib[12 * i + 7]);
                assert(b[12 * i + 8] == ib[12 * i + 8] && b[12 * i + 9] == ib[12 * i + 9]);
                assert(b[12 * i + 10] == ib[12 * i + 10] && b[12 * i + 11] == ib[12 * i + 11]);
            } else {
                let a = arcs.last();
                assert(b.subrange(12 * i + 0, 12 * i + 2) =~= li16(a.x));
                lemma_i16_read(ByteOrder::LSBFirst, b, 12 * i + 0, a.x);
                assert(b.subrange(12 * i + 2, 12 * i + 4) =~= li16(a.y));
                lemma_i16_read(ByteOrder::LSBFirst, b, 12 * i + 2, a.y);
                assert(b.subrange(12 * i + 4, 12 * i + 6) =~= l16(a.width));
                lemma_u16_read(ByteOrder::LSBFirst, b, 12 * i + 4, a.width);
                assert(b.subrange(12 * i + 6, 12 * i + 8) =~= l16(a.height));
                lemma_u16_read(ByteOrder::LSBFirst, b, 12 * i + 6, a.height);
                assert(b.subrange(12 * i + 8, 12 * i + 10) =~= li16(a.angle1));
                lemma_i16_read(ByteOrder::LSBFirst, b, 12 * i + 8, a.angle1);
                assert(b.subrange(12 * i + 10, 12 * i + 12) =~= li16(a.angle2));
                lemma_i16_read(ByteOrder::LSBFirst, b, 12 * i + 10, a.angle2);
            }
        }
    }
}

/// A request that draws or fills arcs carries its opcode, the length, the drawable
/// at 4, the GC at 8, and arc `i` from `12 + 12 * i` on: x, y, width, height and the
/// two angles, two bytes each.
pub proof fn lemma_arcs_request_layout(opcode: u8, drawable: u32, gc_id: u32, arcs: Seq<Arc>)
    ensures
        ({
            let r = arcs_request_bytes(opcode, drawable, gc_id, arcs);
            &&& r.len() == 12 + 12 * arcs.len()
            &&& r[0] == opcode
            &&& u16_at(ByteOrder::LSBFirst, r, 2) == (3 + ((arcs.len() * 3) as u16)) as u16
            &&& u32_at(ByteOrder::LSBFirst, r, 4) == drawable
            &&& u32_at(ByteOrder::LSBFirst, r, 8) == gc_id
            &&& forall|i: int| 0 <= i < arcs.len() ==> i16_at(ByteOrder::LSBFirst, r, 12 + 12 * i
                + 0) == (#[trigger] arcs[i]).x && i16_at(ByteOrder::LSBFirst, r, 12 + 12 * i
                + 2) == arcs[i].y && u16_at(ByteOrder::LSBFirst, r, 12 + 12 * i
                + 4) == arcs[i].width && u16_at(ByteOrder::LSBFirst, r, 12 + 12 * i
                + 6) == arcs[i].height && i16_at(ByteOrder::LSBFirst, r, 12 + 12 * i
                + 8) == arcs[i].angle1 && i16_at(ByteOrder::LSBFirst, r, 12 + 12 * i
                + 10) == arcs[i].angle2
        }),
{
    broadcast use group_wire_lengths;

    let r = arcs_request_bytes(opcode, drawable, gc_id, arcs);
    let ab = arcs_bytes(arcs);
    lemma_arcs_bytes_layout(arcs);
    assert(r.subrange(2, 4) =~= l16((3 + ((arcs.len() * 3) as u16)) as u16));
    lemma_u16_read(ByteOrder::LSBFirst, r, 2, (3 + ((arcs.len() * 3) as u16)) as u16);
    assert(r.subrange(4, 8) =~= l32(drawable));
    lemma_u32_read(ByteOrder::LSBFirst, r, 4, drawable);
    assert(r.subrange(8, 12) =~= l32(gc_id));
    lemma_u32_read(ByteOrder::LSBFirst, r, 8, gc_id);
    assert forall|i: int| 0 <= i < arcs.len() implies i16_at(ByteOrder::LSBFirst, r, 12 + 12 * i
        + 0) == (#[trigger] arcs[i]).x && i16_at(ByteOrder::LSBFirst, r, 12 + 12 * i
        + 2) == arcs[i].y && u16_at(ByteOrder::LSBFirst, r, 12 + 12 * i + 4) == arcs[i].width
        && u16_at(ByteOrder::LSBFirst, r, 12 + 12 * i + 6) == arcs[i].height
        && i16_at(ByteOrder::LSBFirst, r, 12 + 12 * i + 8) == arcs[i].angle1
        && i16_at(ByteOrder::LSBFirst, r, 12 + 12 * i + 10) == arcs[i].angle2 by {
        assert(r[12 + 12 * i] == ab[12 * i] && r[12 + 12 * i + 1] == ab[12 * i + 1]);
        assert(r[12 + 12 * i + 2] == ab[12 * i + 2] && r[12 + 12 * i + 3] == ab[12 * i + 3]);
        assert(r[12 + 12 * i + 4] == ab[12 * i + 4] && r[12 + 12 * i + 5] == ab[12 * i + 5]);
        assert(r[12 + 12 * i + 6] == ab[12 * i + 6] && r[12 + 12 * i + 7] == ab[12 * i + 7]);
        assert(r[12 + 12 * i + 8] == ab[12 * i + 8] && r[12 + 12 * i + 9] == ab[12 * i + 9]);
        assert(r[12 + 12 * i + 10] == ab[12 * i + 10] && r[12 + 12 * i + 11] == ab[12 * i + 11]);
    }
}

} // verus!
