//! X11 connection setup: the handshake between client and server.
use vstd::prelude::*;
use vstd::utf8::encode_utf8;
use super::types::{ByteOrder, Colormap, VisualID, Window};
use super::errors::{x11_error, ErrorCode, X11Error};
use super::wire::{
    group_wire_lengths, lemma_u16_read, lemma_u16_roundtrip, lemma_u32_read, text_of, push_bytes,
    push_u16, push_u32, push_zeros, put_u16, read_u16_at, string_from_utf8_lossy, u16_at,
    u16_bytes, u32_at, u32_bytes, zeros,
};
use super::{pad, padded_len, spec_pad};

verus! {

/// Connection setup request from client
#[derive(Debug, Clone)]
pub struct SetupRequest {
    pub byte_order: ByteOrder,
    pub protocol_major_version: u16,
    pub protocol_minor_version: u16,
    pub authorization_protocol_name: String,
    pub authorization_protocol_data: Vec<u8>,
}

/// The byte order that a setup request's first byte announces: `B` for most
/// significant byte first, `l` for least significant byte first.
pub open spec fn announced_order(b: u8) -> Option<ByteOrder> {
    if b == 66 {
        Some(ByteOrder::MSBFirst)
    } else if b == 108 {
        Some(ByteOrder::LSBFirst)
    } else {
        None
    }
}

/// The bytes that follow the 12-byte header of a setup request: the authorization
/// protocol name and data, each padded to a multiple of four.
pub open spec fn setup_body_len(order: ByteOrder, header: Seq<u8>) -> int {
    let name_len = u16_at(order, header, 6) as int;
    let data_len = u16_at(order, header, 8) as int;
    name_len + spec_pad(name_len) + data_len + spec_pad(data_len)
}

/// The outcome of reading a setup request from the bytes `b` that the client sent:
/// too few bytes for the header or for the authorization fields is a Length error,
/// an unknown byte-order byte a Request error.
pub open spec fn setup_parse_error(b: Seq<u8>) -> Option<X11Error> {
    if b.len() < 12 {
        Some(x11_error(ErrorCode::Length, 0, 0, 0, 0))
    } else if announced_order(b[0]) is None {
        Some(x11_error(ErrorCode::Request, 0, 0, 0, 0))
    } else if b.len() < 12 + setup_body_len(announced_order(b[0])->0, b) {
        Some(x11_error(ErrorCode::Length, 0, 0, 0, 0))
    } else {
        None
    }
}

/// Whether `r` is the setup request that the bytes `b` carry, when they are accepted.
pub open spec fn setup_parsed_as(b: Seq<u8>, r: SetupRequest) -> bool {
    let order = announced_order(b[0])->0;
    let name_len = u16_at(order, b, 6) as int;
    let data_len = u16_at(order, b, 8) as int;
    let data_start = 12 + name_len + spec_pad(name_len);
    &&& r.byte_order == order
    &&& r.protocol_major_version == u16_at(order, b, 2)
    &&& r.protocol_minor_version == u16_at(order, b, 4)
    &&& r.authorization_protocol_name@ == text_of(b.subrange(12, 12 + name_len))
    &&& r.authorization_protocol_data@ == b.subrange(data_start, data_start + data_len)
}

impl SetupRequest {
    /// How many bytes follow the 12-byte header `header`, or the error for an unknown
    /// byte order.
    pub fn remaining_len(header: &[u8]) -> (r: Result<usize, X11Error>)
        requires
            header@.len() >= 12,
        ensures
            match r {
                Ok(n) => announced_order(header@[0]) is Some && n == setup_body_len(
                    announced_order(header@[0])->0,
                    header@,
                ),
                Err(e) => announced_order(header@[0]) is None && e == x11_error(
                    ErrorCode::Request,
                    0,
                    0,
                    0,
                    0,
                ),
            },
    {
        let byte_order = match header[0] {
            66u8 => ByteOrder::MSBFirst,
            108u8 => ByteOrder::LSBFirst,
            _ => return Err(X11Error::bad_request(0, 0)),
        };
        let name_len = read_u16_at(byte_order, header, 6) as usize;
        let data_len = read_u16_at(byte_order, header, 8) as usize;
        Ok(padded_len(name_len) + padded_len(data_len))
    }

    /// Parses a setup request from the bytes that the client sent. Bytes after the
    /// request are left unread.
    pub fn parse(bytes: &[u8]) -> (r: Result<Self, X11Error>)
        ensures
            match r {
                Ok(req) => setup_parse_error(bytes@) is None && setup_parsed_as(bytes@, req),
                Err(e) => setup_parse_error(bytes@) == Some(e),
            },
    {
        if bytes.len() < 12 {
            return Err(X11Error::bad_length(0, 0));
        }

        // Byte 0: byte order ('B' = MSB first, 'l' = LSB first)
        let byte_order = match bytes[0] {
            66u8 => ByteOrder::MSBFirst,
            108u8 => ByteOrder::LSBFirst,
            _ => return Err(X11Error::bad_request(0, 0)),
        };

        let protocol_major_version = read_u16_at(byte_order, bytes, 2);
        let protocol_minor_version = read_u16_at(byte_order, bytes, 4);
        let auth_proto_name_len = read_u16_at(byte_order, bytes, 6) as usize;
        let auth_proto_data_len = read_u16_at(byte_order, bytes, 8) as usize;

        // Authorization protocol name, padded to 4 bytes
        let auth_name_padded = padded_len(auth_proto_name_len);
        if bytes.len() - 12 < auth_name_padded {
            return Err(X11Error::bad_length(0, 0));
        }
        let authorization_protocol_name = string_from_utf8_lossy(
            &bytes[12..12 + auth_proto_name_len],
        );

        // Authorization protocol data, padded to 4 bytes
        let auth_data_padded = padded_len(auth_proto_data_len);
        let data_start = 12 + auth_name_padded;
        if bytes.len() - data_start < auth_data_padded {
            return Err(X11Error::bad_length(0, 0));
        }
        let mut authorization_protocol_data: Vec<u8> = Vec::new();
        push_bytes(
            &mut authorization_protocol_data,
            &bytes[data_start..data_start + auth_proto_data_len],
        );

        Ok(SetupRequest {
            byte_order,
            protocol_major_version,
            protocol_minor_version,
            authorization_protocol_name,
            authorization_protocol_data,
        })
    }
}

/// A setup request in either byte order, announced by `B` or `l` in its first byte,
/// with the protocol version, the lengths of the authorization name and data, and the
/// name and data each padded to a multiple of four, is accepted and read as that byte
/// order, version, name and data.
pub proof fn lemma_setup_request_reads_back(
    order: ByteOrder,
    major: u16,
    minor: u16,
    name: Seq<u8>,
    data: Seq<u8>,
    r: SetupRequest,
)
    requires
        name.len() <= 65535,
        data.len() <= 65535,
    ensures
        ({
            let b = seq![if order == ByteOrder::MSBFirst { 66u8 } else { 108u8 }, 0u8]
                + u16_bytes(order, major) + u16_bytes(order, minor)
                + u16_bytes(order, name.len() as u16) + u16_bytes(order, data.len() as u16)
                + zeros(2) + name + zeros(spec_pad(name.len() as int) as nat) + data
                + zeros(spec_pad(data.len() as int) as nat);
            &&& setup_parse_error(b) is None
            &&& setup_parsed_as(b, r) <==> (r.byte_order == order && r.protocol_major_version
                == major && r.protocol_minor_version == minor && r.authorization_protocol_name@
                == text_of(name) && r.authorization_protocol_data@ == data)
        }),
{
    broadcast use group_wire_lengths;

    let n = name.len() as int;
    let d = data.len() as int;
    let pn = spec_pad(n);
    let pd = spec_pad(d);
    let b = seq![if order == ByteOrder::MSBFirst { 66u8 } else { 108u8 }, 0u8]
        + u16_bytes(order, major) + u16_bytes(order, minor)
        + u16_bytes(order, name.len() as u16) + u16_bytes(order, data.len() as u16)
        + zeros(2) + name + zeros(pn as nat) + data + zeros(pd as nat);
    assert(b.len() == 12 + n + pn + d + pd);
    assert(announced_order(b[0]) == Some(order));
    assert(b.subrange(2, 4) =~= u16_bytes(order, major));
    lemma_u16_read(order, b, 2, major);
    assert(b.subrange(4, 6) =~= u16_bytes(order, minor));
    lemma_u16_read(order, b, 4, minor);
    assert(b.subrange(6, 8) =~= u16_bytes(order, name.len() as u16));
    lemma_u16_read(order, b, 6, name.len() as u16);
    assert(b.subrange(8, 10) =~= u16_bytes(order, data.len() as u16));
    lemma_u16_read(order, b, 8, data.len() as u16);
    assert(b.subrange(12, 12 + n) =~= name);
    assert(b.subrange(12 + n + pn, 12 + n + pn + d) =~= data);
}

/// Setup response status
#[derive(Debug, Clone, Copy, PartialEq, Eq, Structural)]
pub enum SetupStatus {
    Failed,
    Success,
    Authenticate,
}

/// Format information
#[derive(Debug, Clone)]
pub struct Format {
    pub depth: u8,
    pub bits_per_pixel: u8,
    pub scanline_pad: u8,
}

/// The 8 bytes of a pixmap format.
pub open spec fn format_bytes(f: Format) -> Seq<u8> {
    seq![f.depth, f.bits_per_pixel, f.scanline_pad] + zeros(5)
}

/// The pixmap formats one after another.
pub open spec fn formats_bytes(fs: Seq<Format>) -> Seq<u8>
    decreases fs.len(),
{
    if fs.len() == 0 {
        Seq::empty()
    } else {
        formats_bytes(fs.drop_last()) + format_bytes(fs.last())
    }
}

impl Format {
    pub fn encode(&self, buffer: &mut Vec<u8>)
        ensures
            final(buffer)@ == old(buffer)@ + format_bytes(*self),
    {
        buffer.push(self.depth);
        buffer.push(self.bits_per_pixel);
        buffer.push(self.scanline_pad);
        push_zeros(buffer, 5);
        assert(buffer@ =~= old(buffer)@ + format_bytes(*self));
    }
}

/// Visual type information
#[derive(Debug, Clone)]
pub struct VisualType {
    pub visual_id: VisualID,
    pub class: u8,
    pub bits_per_rgb_value: u8,
    pub colormap_entries: u16,
    pub red_mask: u32,
    pub green_mask: u32,
    pub blue_mask: u32,
}

/// The 24 bytes of a visual type.
pub open spec fn visual_bytes(v: VisualType, order: ByteOrder) -> Seq<u8> {
    u32_bytes(order, v.visual_id.0) + seq![v.class, v.bits_per_rgb_value] + u16_bytes(
        order,
        v.colormap_entries,
    ) + u32_bytes(order, v.red_mask) + u32_bytes(order, v.green_mask) + u32_bytes(
        order,
        v.blue_mask,
    ) + zeros(4)
}

/// The visual types one after another.
pub open spec fn visuals_bytes(vs: Seq<VisualType>, order: ByteOrder) -> Seq<u8>
    decreases vs.len(),
{
    if vs.len() == 0 {
        Seq::empty()
    } else {
        visuals_bytes(vs.drop_last(), order) + visual_bytes(vs.last(), order)
    }
}

impl VisualType {
    pub fn encode(&self, buffer: &mut Vec<u8>, byte_order: ByteOrder)
        ensures
            final(buffer)@ == old(buffer)@ + visual_bytes(*self, byte_order),
    {
        push_u32(buffer, byte_order, self.visual_id.get());
        buffer.push(self.class);
        buffer.push(self.bits_per_rgb_value);
        push_u16(buffer, byte_order, self.colormap_entries);
        push_u32(buffer, byte_order, self.red_mask);
        push_u32(buffer, byte_order, self.green_mask);
        push_u32(buffer, byte_order, self.blue_mask);
        push_zeros(buffer, 4);
        assert(buffer@ =~= old(buffer)@ + visual_bytes(*self, byte_order));
    }
}

/// Depth information
#[derive(Debug, Clone)]
pub struct Depth {
    pub depth: u8,
    pub visuals: Vec<VisualType>,
}

/// A depth: its header, with the number of visuals, then the visuals.
pub open spec fn depth_bytes(d: Depth, order: ByteOrder) -> Seq<u8> {
    seq![d.depth, 0u8] + u16_bytes(order, d.visuals@.len() as u16) + zeros(4) + visuals_bytes(
        d.visuals@,
        order,
    )
}

/// The depths one after another.
pub open spec fn depths_bytes(ds: Seq<Depth>, order: ByteOrder) -> Seq<u8>
    decreases ds.len(),
{
    if ds.len() == 0 {
        Seq::empty()
    } else {
        depths_bytes(ds.drop_last(), order) + depth_bytes(ds.last(), order)
    }
}

impl Depth {
    pub fn encode(&self, buffer: &mut Vec<u8>, byte_order: ByteOrder)
        ensures
            final(buffer)@ == old(buffer)@ + depth_bytes(*self, byte_order),
    {
        buffer.push(self.depth);
        buffer.push(0u8);
        push_u16(buffer, byte_order, self.visuals.len() as u16);
        push_zeros(buffer, 4);
        let ghost start = buffer@;

        let mut i: usize = 0;
        while i < self.visuals.len()
            invariant
                i <= self.visuals@.len(),
                buffer@ == start + visuals_bytes(self.visuals@.take(i as int), byte_order),
            decreases self.visuals@.len() - i,
        {
            self.visuals[i].encode(buffer, byte_order);
            assert(self.visuals@.take(i + 1).drop_last() =~= self.visuals@.take(i as int));
            i = i + 1;
            assert(buffer@ =~= start + visuals_bytes(self.visuals@.take(i as int), byte_order));
        }
        assert(self.visuals@.take(self.visuals@.len() as int) =~= self.visuals@);
        assert(buffer@ =~= old(buffer)@ + depth_bytes(*self, byte_order));
    }
}

/// Screen information
#[derive(Debug, Clone)]
pub struct Screen {
    pub root: Window,
    pub default_colormap: Colormap,
    pub white_pixel: u32,
    pub black_pixel: u32,
    pub current_input_masks: u32,
    pub width_in_pixels: u16,
    pub height_in_pixels: u16,
    pub width_in_millimeters: u16,
    pub height_in_millimeters: u16,
    pub min_installed_maps: u16,
    pub max_installed_maps: u16,
    pub root_visual: VisualID,
    pub backing_stores: u8,
    pub save_unders: bool,
    pub root_depth: u8,
    pub allowed_depths: Vec<Depth>,
}

/// The 40-byte header of a screen, which ends with the number of depths.
pub open spec fn screen_header(s: Screen, order: ByteOrder) -> Seq<u8> {
    u32_bytes(order, s.root.0.0) + u32_bytes(order, s.default_colormap.0.0) + u32_bytes(
        order,
        s.white_pixel,
    ) + u32_bytes(order, s.black_pixel) + u32_bytes(order, s.current_input_masks) + u16_bytes(
        order,
        s.width_in_pixels,
    ) + u16_bytes(order, s.height_in_pixels) + u16_bytes(order, s.width_in_millimeters)
        + u16_bytes(order, s.height_in_millimeters) + u16_bytes(order, s.min_installed_maps)
        + u16_bytes(order, s.max_installed_maps) + u32_bytes(order, s.root_visual.0) + seq![
        s.backing_stores,
        if s.save_unders {
            1u8
        } else {
            0u8
        },
        s.root_depth,
        s.allowed_depths@.len() as u8,
    ]
}

/// A screen: its header, then its depths.
#[verifier::opaque]
pub open spec fn screen_bytes(s: Screen, order: ByteOrder) -> Seq<u8> {
    screen_header(s, order) + depths_bytes(s.allowed_depths@, order)
}

/// The screens one after another.
pub open spec fn screens_bytes(ss: Seq<Screen>, order: ByteOrder) -> Seq<u8>
    decreases ss.len(),
{
    if ss.len() == 0 {
        Seq::empty()
    } else {
        screens_bytes(ss.drop_last(), order) + screen_bytes(ss.last(), order)
    }
}

impl Screen {
    pub fn encode(&self, buffer: &mut Vec<u8>, byte_order: ByteOrder)
        ensures
            final(buffer)@ == old(buffer)@ + screen_bytes(*self, byte_order),
    {
        let mut header: Vec<u8> = Vec::new();
        push_u32(&mut header, byte_order, self.root.id().get());
        assert(header@ =~= u32_bytes(byte_order, self.root.0.0));
        push_u32(&mut header, byte_order, self.default_colormap.id().get());
        push_u32(&mut header, byte_order, self.white_pixel);
        push_u32(&mut header, byte_order, self.black_pixel);
        push_u32(&mut header, byte_order, self.current_input_masks);
        push_u16(&mut header, byte_order, self.width_in_pixels);
        push_u16(&mut header, byte_order, self.height_in_pixels);
        push_u16(&mut header, byte_order, self.width_in_millimeters);
        push_u16(&mut header, byte_order, self.height_in_millimeters);
        push_u16(&mut header, byte_order, self.min_installed_maps);
        push_u16(&mut header, byte_order, self.max_installed_maps);
        push_u32(&mut header, byte_order, self.root_visual.get());
        let ghost fields = header@;
        header.push(self.backing_stores);
        header.push(if self.save_unders { 1u8 } else { 0u8 });
        header.push(self.root_depth);
        header.push(self.allowed_depths.len() as u8);
        assert(header@ =~= fields + seq![
            self.backing_stores,
            if self.save_unders { 1u8 } else { 0u8 },
            self.root_depth,
            self.allowed_depths@.len() as u8,
        ]);
        assert(header@ == screen_header(*self, byte_order));
        push_bytes(buffer, header.as_slice());
        let ghost start = buffer@;

        let mut i: usize = 0;
        while i < self.allowed_depths.len()
            invariant
                i <= self.allowed_depths@.len(),
                buffer@ == start + depths_bytes(self.allowed_depths@.take(i as int), byte_order),
            decreases self.allowed_depths@.len() - i,
        {
            self.allowed_depths[i].encode(buffer, byte_order);
            assert(self.allowed_depths@.take(i + 1).drop_last() =~= self.allowed_depths@.take(
                i as int,
            ));
            i = i + 1;
            assert(buffer@ =~= start
                + depths_bytes(self.allowed_depths@.take(i as int), byte_order));
        }
        assert(self.allowed_depths@.take(self.allowed_depths@.len() as int)
            =~= self.allowed_depths@);
        assert(buffer@ =~= old(buffer)@ + screen_bytes(*self, byte_order)) by {
            reveal(screen_bytes);
            assert(buffer@ == old(buffer)@ + screen_header(*self, byte_order) + depths_bytes(
                self.allowed_depths@,
                byte_order,
            ));
        }
    }
}

/// Setup reply (success case)
#[derive(Debug, Clone)]
pub struct SetupSuccess {
    pub protocol_major_version: u16,
    pub protocol_minor_version: u16,
    pub release_number: u32,
    pub resource_id_base: u32,
    pub resource_id_mask: u32,
    pub motion_buffer_size: u32,
    pub maximum_request_length: u16,
    pub image_byte_order: ByteOrder,
    pub bitmap_format_bit_order: ByteOrder,
    pub bitmap_format_scanline_unit: u8,
    pub bitmap_format_scanline_pad: u8,
    pub min_keycode: u8,
    pub max_keycode: u8,
    pub vendor: String,
    pub pixmap_formats: Vec<Format>,
    pub roots: Vec<Screen>,
}

/// The fixed part of a success reply after its length field: release number,
/// resource ID base and mask, motion buffer size, vendor length, maximum request
/// length, the numbers of screens and formats, the image and bitmap formats, and the
/// keycode range.
pub open spec fn success_fixed(s: SetupSuccess, order: ByteOrder) -> Seq<u8> {
    u32_bytes(order, s.release_number) + u32_bytes(order, s.resource_id_base) + u32_bytes(
        order,
        s.resource_id_mask,
    ) + u32_bytes(order, s.motion_buffer_size) + u16_bytes(
        order,
        encode_utf8(s.vendor@).len() as u16,
    ) + u16_bytes(order, s.maximum_request_length) + seq![
        s.roots@.len() as u8,
        s.pixmap_formats@.len() as u8,
        s.image_byte_order.spec_code(),
        s.bitmap_format_bit_order.spec_code(),
        s.bitmap_format_scanline_unit,
        s.bitmap_format_scanline_pad,
        s.min_keycode,
        s.max_keycode,
    ] + zeros(4)
}

/// Everything of a success reply after its length field.
pub open spec fn success_tail(s: SetupSuccess, order: ByteOrder) -> Seq<u8> {
    let vendor = encode_utf8(s.vendor@);
    success_fixed(s, order) + vendor + zeros(spec_pad(vendor.len() as int) as nat) + formats_bytes(
        s.pixmap_formats@,
    ) + screens_bytes(s.roots@, order)
}

/// A success reply: status 1, an unused byte, the protocol version, the length of
/// the rest in 4-byte units, then the rest.
pub open spec fn success_bytes(s: SetupSuccess, order: ByteOrder) -> Seq<u8> {
    let tail = success_tail(s, order);
    seq![1u8, 0u8] + u16_bytes(order, s.protocol_major_version) + u16_bytes(
        order,
        s.protocol_minor_version,
    ) + u16_bytes(order, (tail.len() / 4) as u16) + tail
}

impl SetupSuccess {
    /// The fixed part of the reply after its length field.
    fn fixed_part(&self, byte_order: ByteOrder) -> (r: Vec<u8>)
        ensures
            r@ == success_fixed(*self, byte_order),
    {
        let vendor = self.vendor.as_str().as_bytes();
        let mut tail: Vec<u8> = Vec::new();
        push_u32(&mut tail, byte_order, self.release_number);
        assert(tail@ =~= u32_bytes(byte_order, self.release_number));
        push_u32(&mut tail, byte_order, self.resource_id_base);
        push_u32(&mut tail, byte_order, self.resource_id_mask);
        push_u32(&mut tail, byte_order, self.motion_buffer_size);
        push_u16(&mut tail, byte_order, vendor.len() as u16);
        push_u16(&mut tail, byte_order, self.maximum_request_length);
        let ghost counts = tail@;
        // Number of screens and formats, then the image and bitmap formats
        tail.push(self.roots.len() as u8);
        tail.push(self.pixmap_formats.len() as u8);
        tail.push(self.image_byte_order.code());
        tail.push(self.bitmap_format_bit_order.code());
        tail.push(self.bitmap_format_scanline_unit);
        tail.push(self.bitmap_format_scanline_pad);
        tail.push(self.min_keycode);
        tail.push(self.max_keycode);
        assert(tail@ =~= counts + seq![
            self.roots@.len() as u8,
            self.pixmap_formats@.len() as u8,
            self.image_byte_order.spec_code(),
            self.bitmap_format_bit_order.spec_code(),
            self.bitmap_format_scanline_unit,
            self.bitmap_format_scanline_pad,
            self.min_keycode,
            self.max_keycode,
        ]);
        push_zeros(&mut tail, 4);
        tail
    }

    /// Everything of the reply after its length field.
    fn tail(&self, byte_order: ByteOrder) -> (r: Vec<u8>)
        ensures
            r@ == success_tail(*self, byte_order),
    {
        let vendor = self.vendor.as_str().as_bytes();
        let mut tail = self.fixed_part(byte_order);

        // Vendor string, padded to 4 bytes
        push_bytes(&mut tail, vendor);
        push_zeros(&mut tail, pad(vendor.len()));
        push_formats(&mut tail, &self.pixmap_formats);
        push_screens(&mut tail, &self.roots, byte_order);
        tail
    }

    /// The reply's bytes in `byte_order`.
    pub fn encode(&self, byte_order: ByteOrder) -> (r: Vec<u8>)
        ensures
            r@ == success_bytes(*self, byte_order),
    {
        let tail = self.tail(byte_order);
        let mut buffer: Vec<u8> = Vec::new();
        // Status (1 = Success) and an unused byte
        buffer.push(1u8);
        buffer.push(0u8);
        // Protocol version
        push_u16(&mut buffer, byte_order, self.protocol_major_version);
        push_u16(&mut buffer, byte_order, self.protocol_minor_version);
        // Length of everything after the first 8 bytes, in 4-byte units
        let length = (tail.len() / 4) as u16;
        push_u16(&mut buffer, byte_order, length);
        push_bytes(&mut buffer, tail.as_slice());
        assert(buffer@ =~= success_bytes(*self, byte_order));
        buffer
    }
}

/// Appends the pixmap formats.
fn push_formats(buffer: &mut Vec<u8>, formats: &Vec<Format>)
    ensures
        final(buffer)@ == old(buffer)@ + formats_bytes(formats@),
{
    let mut i: usize = 0;
    while i < formats.len()
        invariant
            i <= formats@.len(),
            buffer@ == old(buffer)@ + formats_bytes(formats@.take(i as int)),
        decreases formats@.len() - i,
    {
        formats[i].encode(buffer);
        assert(formats@.take(i + 1).drop_last() =~= formats@.take(i as int));
        i = i + 1;
        assert(buffer@ =~= old(buffer)@ + formats_bytes(formats@.take(i as int)));
    }
    assert(formats@.take(formats@.len() as int) =~= formats@);
}

/// Appends the screens.
fn push_screens(buffer: &mut Vec<u8>, screens: &Vec<Screen>, byte_order: ByteOrder)
    ensures
        final(buffer)@ == old(buffer)@ + screens_bytes(screens@, byte_order),
{
    let mut j: usize = 0;
    while j < screens.len()
        invariant
            j <= screens@.len(),
            buffer@ == old(buffer)@ + screens_bytes(screens@.take(j as int), byte_order),
        decreases screens@.len() - j,
    {
        let ghost before = buffer@;
        screens[j].encode(buffer, byte_order);
        assert(screens@.take(j + 1).drop_last() =~= screens@.take(j as int));
        let ghost done = screens_bytes(screens@.take(j as int), byte_order);
        let ghost next = screen_bytes(screens@[j as int], byte_order);
        assert(screens_bytes(screens@.take(j + 1), byte_order) == done + next);
        assert(buffer@ == (old(buffer)@ + done) + next);
        assert((old(buffer)@ + done) + next =~= old(buffer)@ + (done + next));
        j = j + 1;
    }
    assert(screens@.take(screens@.len() as int) =~= screens@);
}

/// Setup failed response
#[derive(Debug, Clone)]
pub struct SetupFailed {
    pub protocol_major_version: u16,
    pub protocol_minor_version: u16,
    pub reason: String,
}

/// A failure reply: status 0, the reason's length, the protocol version, the length
/// of the padded reason in 4-byte units, then the reason, padded.
pub open spec fn failed_bytes(f: SetupFailed, order: ByteOrder) -> Seq<u8> {
    let reason = encode_utf8(f.reason@);
    let padded = reason.len() + spec_pad(reason.len() as int);
    seq![0u8, reason.len() as u8] + u16_bytes(order, f.protocol_major_version) + u16_bytes(
        order,
        f.protocol_minor_version,
    ) + u16_bytes(order, (padded / 4) as u16) + reason
        + zeros(spec_pad(reason.len() as int) as nat)
}

impl SetupFailed {
    /// The reply's bytes in `byte_order`.
    pub fn encode(&self, byte_order: ByteOrder) -> (r: Vec<u8>)
        requires
            encode_utf8(self.reason@).len() + 4 <= usize::MAX,
        ensures
            r@ == failed_bytes(*self, byte_order),
    {
        let mut buffer: Vec<u8> = Vec::new();
        let reason = self.reason.as_str().as_bytes();

        // Status (0 = Failed) and the reason's length
        buffer.push(0u8);
        buffer.push(reason.len() as u8);

        push_u16(&mut buffer, byte_order, self.protocol_major_version);
        push_u16(&mut buffer, byte_order, self.protocol_minor_version);

        // Length in 4-byte units
        let reason_padded = padded_len(reason.len());
        let length = (reason_padded / 4) as u16;
        push_u16(&mut buffer, byte_order, length);

        // Reason, padded to 4 bytes
        push_bytes(&mut buffer, reason);
        push_zeros(&mut buffer, pad(reason.len()));
        assert(buffer@ =~= failed_bytes(*self, byte_order));
        buffer
    }
}

/// Setup response
#[derive(Debug, Clone)]
pub enum SetupResponse {
    Success(SetupSuccess),
    Failed(SetupFailed),
}

/// The bytes of a setup response.
pub open spec fn response_bytes(r: SetupResponse, order: ByteOrder) -> Seq<u8> {
    match r {
        SetupResponse::Success(s) => success_bytes(s, order),
        SetupResponse::Failed(f) => failed_bytes(f, order),
    }
}

impl SetupResponse {
    /// The response's bytes in `byte_order`.
    pub fn encode(&self, byte_order: ByteOrder) -> (r: Vec<u8>)
        requires
            self matches SetupResponse::Failed(f) ==> encode_utf8(f.reason@).len() + 4
                <= usize::MAX,
        ensures
            r@ == response_bytes(*self, byte_order),
    {
        match self {
            SetupResponse::Success(success) => success.encode(byte_order),
            SetupResponse::Failed(failed) => failed.encode(byte_order),
        }
    }
}

proof fn lemma_formats_len(fs: Seq<Format>)
    ensures
        formats_bytes(fs).len() == 8 * fs.len(),
    decreases fs.len(),
{
    if fs.len() > 0 {
        lemma_formats_len(fs.drop_last());
    }
}

proof fn lemma_visuals_len(vs: Seq<VisualType>, order: ByteOrder)
    ensures
        visuals_bytes(vs, order).len() == 24 * vs.len(),
    decreases vs.len(),
{
    broadcast use super::wire::group_wire_lengths;

    if vs.len() > 0 {
        lemma_visuals_len(vs.drop_last(), order);
    }
}

proof fn lemma_depths_aligned(ds: Seq<Depth>, order: ByteOrder)
    ensures
        depths_bytes(ds, order).len() % 4 == 0,
    decreases ds.len(),
{
    broadcast use super::wire::group_wire_lengths;

    if ds.len() > 0 {
        lemma_depths_aligned(ds.drop_last(), order);
        lemma_visuals_len(ds.last().visuals@, order);
    }
}

proof fn lemma_screen_aligned(s: Screen, order: ByteOrder)
    ensures
        screen_bytes(s, order).len() % 4 == 0,
{
    broadcast use super::wire::group_wire_lengths;

    reveal(screen_bytes);
    let d = depths_bytes(s.allowed_depths@, order);
    lemma_depths_aligned(s.allowed_depths@, order);
    assert(screen_header(s, order).len() == 40);
    assert(screen_bytes(s, order).len() == 40 + d.len());
    let n = d.len() as int;
    assert((40 + n) % 4 == 0) by (nonlinear_arith)
        requires
            n % 4 == 0,
    ;
}

proof fn lemma_screens_aligned(ss: Seq<Screen>, order: ByteOrder)
    ensures
        screens_bytes(ss, order).len() % 4 == 0,
    decreases ss.len(),
{
    if ss.len() > 0 {
        lemma_screens_aligned(ss.drop_last(), order);
        lemma_screen_aligned(ss.last(), order);
    }
}

/// A setup reply announces its own size: status 1 first, and a length field at
/// offset 6 that counts the 4-byte units after the first 8 bytes, whenever that count
/// fits the field.
#[verifier::rlimit(50)]
pub proof fn lemma_setup_success_framed(s: SetupSuccess, order: ByteOrder)
    requires
        success_tail(s, order).len() <= 4 * 65535,
    ensures
        success_bytes(s, order)[0] == 1,
        success_bytes(s, order).len() == 8 + 4 * u16_at(order, success_bytes(s, order), 6),
{
    broadcast use super::wire::group_wire_lengths;

    let tail = success_tail(s, order);
    let vendor = encode_utf8(s.vendor@);
    let fixed = success_fixed(s, order);
    let formats = formats_bytes(s.pixmap_formats@);
    let screens = screens_bytes(s.roots@, order);
    lemma_formats_len(s.pixmap_formats@);
    lemma_screens_aligned(s.roots@, order);
    let v = vendor.len() as int;
    let p = spec_pad(v);
    assert(fixed.len() == 32);
    assert(tail.len() == 32 + v + p + formats.len() + screens.len());
    let f = formats.len() as int;
    let c = screens.len() as int;
    assert((32 + v + p + f + c) % 4 == 0) by (nonlinear_arith)
        requires
            p == (4 - (v % 4)) % 4,
            f % 8 == 0,
            c % 4 == 0,
            v >= 0,
    ;
    let units = (tail.len() / 4) as u16;
    let b = success_bytes(s, order);
    assert(b.len() == 8 + tail.len());
    assert(b.subrange(6, 8) =~= u16_bytes(order, units));
    lemma_u16_read(order, b, 6, units);
}

/// A refusal announces its own size the same way, and carries the reason's length
/// in its second byte, whenever those fit their fields.
pub proof fn lemma_setup_failed_framed(f: SetupFailed, order: ByteOrder)
    requires
        encode_utf8(f.reason@).len() <= 255,
    ensures
        failed_bytes(f, order)[0] == 0,
        failed_bytes(f, order)[1] == encode_utf8(f.reason@).len(),
        failed_bytes(f, order).len() == 8 + 4 * u16_at(order, failed_bytes(f, order), 6),
{
    broadcast use super::wire::group_wire_lengths;

    let reason = encode_utf8(f.reason@);
    let padded = reason.len() + spec_pad(reason.len() as int);
    lemma_u16_roundtrip(order, (padded / 4) as u16);
    let b = failed_bytes(f, order);
    assert(b.subrange(6, 8) =~= u16_bytes(order, (padded / 4) as u16));
}

/// A success reply to the connection setup carries 1 first, the protocol version at 2
/// and 4, the length of the rest at 6, the release number at 8, the resource ID base
/// and mask at 12 and 16, the motion buffer size at 20, the vendor's length at 24, the
/// maximum request length at 26, the numbers of screens and formats at 28 and 29, the
/// image byte order and bitmap bit order at 30 and 31, the scanline unit and pad at 32
/// and 33, the keycode range at 34 and 35, and the vendor from offset 40 on.
pub proof fn lemma_setup_success_layout(
    s: SetupSuccess,
    order: ByteOrder,
)
    ensures
        ({
            let r = success_bytes(s, order);
            &&& r[0] == 1
            &&& u16_at(order, r, 2) == s.protocol_major_version
            &&& u16_at(order, r, 4) == s.protocol_minor_version
            &&& u16_at(order, r, 6) == (success_tail(s, order).len() / 4) as u16
            &&& u32_at(order, r, 8) == s.release_number
            &&& u32_at(order, r, 12) == s.resource_id_base
            &&& u32_at(order, r, 16) == s.resource_id_mask
            &&& u32_at(order, r, 20) == s.motion_buffer_size
            &&& u16_at(order, r, 24) == encode_utf8(s.vendor@).len() as u16
            &&& u16_at(order, r, 26) == s.maximum_request_length
            &&& r[28] == s.roots@.len() as u8
            &&& r[29] == s.pixmap_formats@.len() as u8
            &&& r[30] == s.image_byte_order.spec_code()
            &&& r[31] == s.bitmap_format_bit_order.spec_code()
            &&& r[32] == s.bitmap_format_scanline_unit
            &&& r[33] == s.bitmap_format_scanline_pad
            &&& r[34] == s.min_keycode
            &&& r[35] == s.max_keycode
            &&& r.subrange(40, 40 + encode_utf8(s.vendor@).len() as int) == encode_utf8(s.vendor@)
        }),
{
    broadcast use group_wire_lengths;

    let r = success_bytes(s, order);
    let tail = success_tail(s, order);
    let fixed = success_fixed(s, order);
    let vendor = encode_utf8(s.vendor@);
    let rest = vendor + zeros(spec_pad(vendor.len() as int) as nat) + formats_bytes(
        s.pixmap_formats@,
    ) + screens_bytes(s.roots@, order);
    assert(fixed.len() == 32);
    assert(tail =~= fixed + rest);
    let head = seq![1u8, 0u8] + u16_bytes(order, s.protocol_major_version) + u16_bytes(
        order,
        s.protocol_minor_version,
    ) + u16_bytes(order, (tail.len() / 4) as u16);
    assert(r =~= head + tail);
    assert(r.subrange(8, 40) =~= fixed);
    assert(r.subrange(40, 40 + vendor.len() as int) =~= vendor);
    assert(r[0] == 1);
    assert(r.subrange(2, 4) =~= u16_bytes(order, s.protocol_major_version));
    lemma_u16_read(order, r, 2, s.protocol_major_version);
    assert(r.subrange(4, 6) =~= u16_bytes(order, s.protocol_minor_version));
    lemma_u16_read(order, r, 4, s.protocol_minor_version);
    assert(r.subrange(6, 8) =~= u16_bytes(order, (tail.len() / 4) as u16));
    lemma_u16_read(order, r, 6, (tail.len() / 4) as u16);
    assert(fixed.subrange(0, 4) =~= u32_bytes(order, s.release_number));
    assert(fixed.subrange(4, 8) =~= u32_bytes(order, s.resource_id_base));
    assert(fixed.subrange(8, 12) =~= u32_bytes(order, s.resource_id_mask));
    assert(fixed.subrange(12, 16) =~= u32_bytes(order, s.motion_buffer_size));
    assert(fixed.subrange(16, 18) =~= u16_bytes(order, vendor.len() as u16));
    assert(fixed.subrange(18, 20) =~= u16_bytes(order, s.maximum_request_length));
    assert(r.subrange(8, 12) =~= fixed.subrange(0, 4));
    assert(r.subrange(12, 16) =~= fixed.subrange(4, 8));
    assert(r.subrange(16, 20) =~= fixed.subrange(8, 12));
    assert(r.subrange(20, 24) =~= fixed.subrange(12, 16));
    assert(r.subrange(24, 26) =~= fixed.subrange(16, 18));
    assert(r.subrange(26, 28) =~= fixed.subrange(18, 20));
    lemma_u32_read(order, r, 8, s.release_number);
    lemma_u32_read(order, r, 12, s.resource_id_base);
    lemma_u32_read(order, r, 16, s.resource_id_mask);
    lemma_u32_read(order, r, 20, s.motion_buffer_size);
    lemma_u16_read(order, r, 24, vendor.len() as u16);
    lemma_u16_read(order, r, 26, s.maximum_request_length);
    assert(r[28] == fixed[20] && r[29] == fixed[21] && r[30] == fixed[22] && r[31] == fixed[23]);
    assert(r[32] == fixed[24] && r[33] == fixed[25] && r[34] == fixed[26] && r[35] == fixed[27]);
}

/// A failure reply to the connection setup carries 0 first, the reason's length at 1,
/// the protocol version at 2 and 4, the length of the padded reason at 6, and the
/// reason from offset 8 on.
pub proof fn lemma_setup_failed_layout(
    f: SetupFailed,
    order: ByteOrder,
)
    ensures
        ({
            let r = failed_bytes(f, order);
            &&& r[0] == 0
            &&& r[1] == encode_utf8(f.reason@).len() as u8
            &&& u16_at(order, r, 2) == f.protocol_major_version
            &&& u16_at(order, r, 4) == f.protocol_minor_version
            &&& u16_at(order, r, 6) == ((encode_utf8(f.reason@).len()
                + spec_pad(encode_utf8(f.reason@).len() as int)) / 4) as u16
            &&& r.subrange(8, 8 + encode_utf8(f.reason@).len() as int) == encode_utf8(f.reason@)
        }),
{
    broadcast use group_wire_lengths;

    let r = failed_bytes(f, order);
    assert(r[0] == 0);
    assert(r[1] == encode_utf8(f.reason@).len() as u8);
    assert(r.subrange(2, 4) =~= u16_bytes(order, f.protocol_major_version));
    lemma_u16_read(order, r, 2, f.protocol_major_version);
    assert(r.subrange(4, 6) =~= u16_bytes(order, f.protocol_minor_version));
    lemma_u16_read(order, r, 4, f.protocol_minor_version);
    assert(r.subrange(6, 8) =~= u16_bytes(order, ((encode_utf8(f.reason@).len()
        + spec_pad(encode_utf8(f.reason@).len() as int)) / 4) as u16));
    lemma_u16_read(order, r, 6, ((encode_utf8(f.reason@).len()
        + spec_pad(encode_utf8(f.reason@).len() as int)) / 4) as u16);
    assert(r.subrange(8, 8 + encode_utf8(f.reason@).len() as int) =~= encode_utf8(f.reason@));
}

} // verus!
