//! The logic of the backend that draws through a real X server.
//!
//! The backend speaks X11 to the server it draws on, least significant byte first.
//! What is here reads the server's connection setup reply and its authorization
//! file, and builds the requests that the backend sends; the connection itself,
//! and the reading and writing on it, belong to the program around the library.
use vstd::prelude::*;
use crate::protocol::setup::{
    setup_parse_error, setup_parsed_as, Depth, Format, Screen, SetupRequest, SetupSuccess,
    VisualType,
};
use crate::protocol::types::{ByteOrder, Colormap, VisualID, Window};
use crate::protocol::wire::{
    decimal_digits, decimal_string, lemma_u16_roundtrip, text_of, push_bytes, push_u16,
    push_zeros, read_u16_at, read_u32_at, string_from_utf8_lossy, u16_at, u16_bytes, u32_at, zeros,
};
use crate::protocol::{pad, padded_len, spec_pad};
use crate::backend::null::{font_view, BackendFontInfo, FontView};
use crate::backend::traits::{div_toward_zero, BackendError};
use crate::cli::{
    lemma_decimal_digits_value, lemma_parse_reads_decimal, parse_u16, parse_u16_spec, parse_usize,
    parse_usize_spec,
};
use vstd::utf8::encode_utf8;

verus! {

/// The 16-bit value at `off`, least significant byte first.
pub open spec fn le16(d: Seq<u8>, off: int) -> u16 {
    u16_at(ByteOrder::LSBFirst, d, off)
}

/// The 32-bit value at `off`, least significant byte first.
pub open spec fn le32(d: Seq<u8>, off: int) -> u32 {
    u32_at(ByteOrder::LSBFirst, d, off)
}

/// The byte order that a byte-order field names: 0 for least significant byte first,
/// anything else for most significant byte first.
pub open spec fn order_of(b: u8) -> ByteOrder {
    if b == 0 {
        ByteOrder::LSBFirst
    } else {
        ByteOrder::MSBFirst
    }
}

/// Whether `n` bytes from `off` lie within `d`.
pub open spec fn fits(d: Seq<u8>, off: int, n: int) -> bool {
    0 <= off && off + n <= d.len()
}

/// The pixmap format at `off`.
pub open spec fn format_at(d: Seq<u8>, off: int) -> Format {
    Format { depth: d[off], bits_per_pixel: d[off + 1], scanline_pad: d[off + 2] }
}

/// The formats that `n` attempts read from `off`, and where reading stopped: each
/// attempt reads one 8-byte format if the bytes are there, and otherwise reads nothing.
pub open spec fn formats_from(d: Seq<u8>, off: int, n: nat) -> (Seq<Format>, int)
    decreases n,
{
    if n == 0 {
        (Seq::empty(), off)
    } else {
        let (fs, o) = formats_from(d, off, (n - 1) as nat);
        if fits(d, o, 8) {
            (fs.push(format_at(d, o)), o + 8)
        } else {
            (fs, o)
        }
    }
}

/// The visual type at `off`.
pub open spec fn visual_at(d: Seq<u8>, off: int) -> VisualType {
    VisualType {
        visual_id: VisualID(le32(d, off)),
        class: d[off + 4],
        bits_per_rgb_value: d[off + 5],
        colormap_entries: le16(d, off + 6),
        red_mask: le32(d, off + 8),
        green_mask: le32(d, off + 12),
        blue_mask: le32(d, off + 16),
    }
}

/// The visual types that `n` attempts read from `off`, 24 bytes each when they are
/// there, and where reading stopped.
pub open spec fn visuals_from(d: Seq<u8>, off: int, n: nat) -> (Seq<VisualType>, int)
    decreases n,
{
    if n == 0 {
        (Seq::empty(), off)
    } else {
        let (vs, o) = visuals_from(d, off, (n - 1) as nat);
        if fits(d, o, 24) {
            (vs.push(visual_at(d, o)), o + 24)
        } else {
            (vs, o)
        }
    }
}

/// A depth as values: its depth and its visual types.
pub open spec fn depth_view(dp: Depth) -> (u8, Seq<VisualType>) {
    (dp.depth, dp.visuals@)
}

/// The depths that `n` attempts read from `off`, and where reading stopped: a depth
/// is an 8-byte header, which gives the number of visual types, and then those
/// visual types.
pub open spec fn depths_from(d: Seq<u8>, off: int, n: nat) -> (Seq<(u8, Seq<VisualType>)>, int)
    decreases n,
{
    if n == 0 {
        (Seq::empty(), off)
    } else {
        let (ds, o) = depths_from(d, off, (n - 1) as nat);
        if fits(d, o, 8) {
            let (vs, o2) = visuals_from(d, o + 8, le16(d, o + 2) as nat);
            (ds.push((d[o], vs)), o2)
        } else {
            (ds, o)
        }
    }
}

/// Reads up to `n` visual types from `off`.
fn read_visuals(data: &[u8], off: usize, n: u16) -> (r: (Vec<VisualType>, usize))
    requires
        off <= data@.len(),
    ensures
        (r.0@, r.1 as int) == visuals_from(data@, off as int, n as nat),
        r.1 <= data@.len(),
{
    let mut visuals: Vec<VisualType> = Vec::new();
    let mut offset = off;
    let mut i: u16 = 0;
    while i < n
        invariant
            i <= n,
            offset <= data@.len(),
            (visuals@, offset as int) == visuals_from(data@, off as int, i as nat),
        decreases n - i,
    {
        if data.len() - offset >= 24 {
            visuals.push(
                VisualType {
                    visual_id: VisualID::new(read_u32_at(ByteOrder::LSBFirst, data, offset)),
                    class: data[offset + 4],
                    bits_per_rgb_value: data[offset + 5],
                    colormap_entries: read_u16_at(ByteOrder::LSBFirst, data, offset + 6),
                    red_mask: read_u32_at(ByteOrder::LSBFirst, data, offset + 8),
                    green_mask: read_u32_at(ByteOrder::LSBFirst, data, offset + 12),
                    blue_mask: read_u32_at(ByteOrder::LSBFirst, data, offset + 16),
                },
            );
            offset = offset + 24;
        }
        i = i + 1;
    }
    (visuals, offset)
}

/// Reads up to `n` depths, with their visual types, from `off`.
fn read_depths(data: &[u8], off: usize, n: u8) -> (r: (Vec<Depth>, usize))
    requires
        off <= data@.len(),
    ensures
        (r.0@.map_values(|dp: Depth| depth_view(dp)), r.1 as int) == depths_from(
            data@,
            off as int,
            n as nat,
        ),
        r.1 <= data@.len(),
{
    let mut depths: Vec<Depth> = Vec::new();
    let mut offset = off;
    let mut i: u8 = 0;
    while i < n
        invariant
            i <= n,
            offset <= data@.len(),
            (depths@.map_values(|dp: Depth| depth_view(dp)), offset as int) == depths_from(
                data@,
                off as int,
                i as nat,
            ),
        decreases n - i,
    {
        if data.len() - offset >= 8 {
            let depth = data[offset];
            let num_visuals = read_u16_at(ByteOrder::LSBFirst, data, offset + 2);
            let (visuals, next) = read_visuals(data, offset + 8, num_visuals);
            let ghost before = depths@;
            depths.push(Depth { depth, visuals });
            assert(depths@.map_values(|dp: Depth| depth_view(dp)) =~= before.map_values(
                |dp: Depth| depth_view(dp),
            ).push((depth, visuals@)));
            offset = next;
        }
        i = i + 1;
    }
    (depths, offset)
}

/// A screen as values: its fields, with each depth as its depth and visual types.
pub struct ScreenView {
    pub root: Window,
    pub default_colormap: Colormap,
    pub white_pixel: u32,
    pub black_pixel: u32,
    pub current_input_masks: u32,
    pub width_in_pixels: u16,
    pub height_in_pixels: u16,
    pub width_in_millimeters: u16,
    pub height_in_millimeters: u16,
    pub min_installed_maps: u16,
    pub max_installed_maps: u16,
    pub root_visual: VisualID,
    pub backing_stores: u8,
    pub save_unders: bool,
    pub root_depth: u8,
    pub depths: Seq<(u8, Seq<VisualType>)>,
}

/// A screen as values.
pub open spec fn screen_view(s: Screen) -> ScreenView {
    ScreenView {
        root: s.root,
        default_colormap: s.default_colormap,
        white_pixel: s.white_pixel,
        black_pixel: s.black_pixel,
        current_input_masks: s.current_input_masks,
        width_in_pixels: s.width_in_pixels,
        height_in_pixels: s.height_in_pixels,
        width_in_millimeters: s.width_in_millimeters,
        height_in_millimeters: s.height_in_millimeters,
        min_installed_maps: s.min_installed_maps,
        max_installed_maps: s.max_installed_maps,
        root_visual: s.root_visual,
        backing_stores: s.backing_stores,
        save_unders: s.save_unders,
        root_depth: s.root_depth,
        depths: s.allowed_depths@.map_values(|dp: Depth| depth_view(dp)),
    }
}

/// The screen whose 40-byte header is at `off`, with the depths that follow it.
pub open spec fn screen_at(d: Seq<u8>, off: int, depths: Seq<(u8, Seq<VisualType>)>) -> ScreenView {
    ScreenView {
        root: Window(crate::protocol::types::XID(le32(d, off))),
        default_colormap: Colormap(crate::protocol::types::XID(le32(d, off + 4))),
        white_pixel: le32(d, off + 8),
        black_pixel: le32(d, off + 12),
        current_input_masks: le32(d, off + 16),
        width_in_pixels: le16(d, off + 20),
        height_in_pixels: le16(d, off + 22),
        width_in_millimeters: le16(d, off + 24),
        height_in_millimeters: le16(d, off + 26),
        min_installed_maps: le16(d, off + 28),
        max_installed_maps: le16(d, off + 30),
        root_visual: VisualID(le32(d, off + 32)),
        backing_stores: d[off + 36],
        save_unders: d[off + 37] != 0,
        root_depth: d[off + 38],
        depths,
    }
}

/// The screens that `n` attempts read from `off`, and where reading stopped: a
/// screen is a 40-byte header, which gives the number of depths, and then those
/// depths.
pub open spec fn screens_from(d: Seq<u8>, off: int, n: nat) -> (Seq<ScreenView>, int)
    decreases n,
{
    if n == 0 {
        (Seq::empty(), off)
    } else {
        let (ss, o) = screens_from(d, off, (n - 1) as nat);
        if fits(d, o, 40) {
            let (ds, o2) = depths_from(d, o + 40, d[o + 39] as nat);
            (ss.push(screen_at(d, o, ds)), o2)
        } else {
            (ss, o)
        }
    }
}

/// Reads up to `n` formats from `off`.
fn read_formats(data: &[u8], off: usize, n: u8) -> (r: (Vec<Format>, usize))
    requires
        off <= data@.len(),
    ensures
        (r.0@, r.1 as int) == formats_from(data@, off as int, n as nat),
        r.1 <= data@.len(),
{
    let mut formats: Vec<Format> = Vec::new();
    let mut offset = off;
    let mut i: u8 = 0;
    while i < n
        invariant
            i <= n,
            offset <= data@.len(),
            (formats@, offset as int) == formats_from(data@, off as int, i as nat),
        decreases n - i,
    {
        if data.len() - offset >= 8 {
            formats.push(
                Format {
                    depth: data[offset],
                    bits_per_pixel: data[offset + 1],
                    scanline_pad: data[offset + 2],
                },
            );
            offset = offset + 8;
        }
        i = i + 1;
    }
    (formats, offset)
}

/// Reads up to `n` screens, with their depths and visual types, from `off`.
fn read_screens(data: &[u8], off: usize, n: u8) -> (r: (Vec<Screen>, usize))
    requires
        off <= data@.len(),
    ensures
        (r.0@.map_values(|s: Screen| screen_view(s)), r.1 as int) == screens_from(
            data@,
            off as int,
            n as nat,
        ),
        r.1 <= data@.len(),
{
    let mut roots: Vec<Screen> = Vec::new();
    let mut offset = off;
    let mut i: u8 = 0;
    while i < n
        invariant
            i <= n,
            offset <= data@.len(),
            (roots@.map_values(|s: Screen| screen_view(s)), offset as int) == screens_from(
                data@,
                off as int,
                i as nat,
            ),
        decreases n - i,
    {
        if data.len() - offset >= 40 {
            let o = offset;
            let num_depths = data[o + 39];
            let (depths, next) = read_depths(data, o + 40, num_depths);
            let screen = Screen {
                root: Window::new(read_u32_at(ByteOrder::LSBFirst, data, o)),
                default_colormap: Colormap::new(read_u32_at(ByteOrder::LSBFirst, data, o + 4)),
                white_pixel: read_u32_at(ByteOrder::LSBFirst, data, o + 8),
                black_pixel: read_u32_at(ByteOrder::LSBFirst, data, o + 12),
                current_input_masks: read_u32_at(ByteOrder::LSBFirst, data, o + 16),
                width_in_pixels: read_u16_at(ByteOrder::LSBFirst, data, o + 20),
                height_in_pixels: read_u16_at(ByteOrder::LSBFirst, data, o + 22),
                width_in_millimeters: read_u16_at(ByteOrder::LSBFirst, data, o + 24),
                height_in_millimeters: read_u16_at(ByteOrder::LSBFirst, data, o + 26),
                min_installed_maps: read_u16_at(ByteOrder::LSBFirst, data, o + 28),
                max_installed_maps: read_u16_at(ByteOrder::LSBFirst, data, o + 30),
                root_visual: VisualID::new(read_u32_at(ByteOrder::LSBFirst, data, o + 32)),
                backing_stores: data[o + 36],
                save_unders: data[o + 37] != 0,
                root_depth: data[o + 38],
                allowed_depths: depths,
            };
            let ghost before = roots@;
            roots.push(screen);
            assert(roots@.map_values(|s: Screen| screen_view(s)) =~= before.map_values(
                |s: Screen| screen_view(s),
            ).push(screen_view(screen)));
            offset = next;
        }
        i = i + 1;
    }
    (roots, offset)
}

/// Nothing is read from beyond the end of the data.
proof fn lemma_nothing_past_end(d: Seq<u8>, off: int, nf: nat, ns: nat)
    requires
        off > d.len(),
    ensures
        formats_from(d, off, nf) == (Seq::<Format>::empty(), off),
        screens_from(d, off, ns) == (Seq::<ScreenView>::empty(), off),
    decreases nf + ns,
{
    if nf > 0 {
        lemma_nothing_past_end(d, off, (nf - 1) as nat, ns);
    }
    if ns > 0 {
        lemma_nothing_past_end(d, off, nf, (ns - 1) as nat);
    }
}

/// The vendor string of a setup reply: its bytes decoded, when at least one byte
/// follows them, and empty otherwise.
pub open spec fn vendor_of(d: Seq<u8>) -> Seq<char> {
    let vendor_len = le16(d, 16) as int;
    if d.len() > 32 + vendor_len {
        text_of(d.subrange(32, 32 + vendor_len))
    } else {
        Seq::empty()
    }
}

/// Whether `s` is what the setup reply with the 8-byte `header` and the rest `data`
/// says, all of it least significant byte first: the version from the header; the
/// release, resource IDs, motion buffer size, maximum request length, image and
/// bitmap formats and keycode range from the fixed part of the data; the vendor; then
/// as many pixmap formats and screens as the counts in the fixed part announce and
/// the data holds.
pub open spec fn setup_read_from(header: Seq<u8>, d: Seq<u8>, s: SetupSuccess) -> bool {
    let vendor_len = le16(d, 16) as int;
    let formats_start = 32 + vendor_len + spec_pad(vendor_len);
    let (formats, after_formats) = formats_from(d, formats_start, d[21] as nat);
    let (screens, _) = screens_from(d, after_formats, d[20] as nat);
    &&& s.protocol_major_version == le16(header, 2)
    &&& s.protocol_minor_version == le16(header, 4)
    &&& s.release_number == le32(d, 0)
    &&& s.resource_id_base == le32(d, 4)
    &&& s.resource_id_mask == le32(d, 8)
    &&& s.motion_buffer_size == le32(d, 12)
    &&& s.maximum_request_length == le16(d, 18)
    &&& s.image_byte_order == order_of(d[22])
    &&& s.bitmap_format_bit_order == order_of(d[23])
    &&& s.bitmap_format_scanline_unit == d[24]
    &&& s.bitmap_format_scanline_pad == d[25]
    &&& s.min_keycode == d[26]
    &&& s.max_keycode == d[27]
    &&& s.vendor@ == vendor_of(d)
    &&& s.pixmap_formats@ == formats
    &&& s.roots@.map_values(|sc: Screen| screen_view(sc)) == screens
}

/// Reads the success reply of a real X server to the connection setup, from its
/// 8-byte header and the data after it.
pub fn parse_setup_success(header: &[u8], data: &[u8]) -> (r: Result<SetupSuccess, BackendError>)
    requires
        header@.len() >= 6,
        data@.len() >= 28,
    ensures
        r matches Ok(s) && setup_read_from(header@, data@, s),
{
    let protocol_major = read_u16_at(ByteOrder::LSBFirst, header, 2);
    let protocol_minor = read_u16_at(ByteOrder::LSBFirst, header, 4);

    let release_number = read_u32_at(ByteOrder::LSBFirst, data, 0);
    let resource_id_base = read_u32_at(ByteOrder::LSBFirst, data, 4);
    let resource_id_mask = read_u32_at(ByteOrder::LSBFirst, data, 8);
    let motion_buffer_size = read_u32_at(ByteOrder::LSBFirst, data, 12);
    let vendor_len = read_u16_at(ByteOrder::LSBFirst, data, 16) as usize;
    let max_request_length = read_u16_at(ByteOrder::LSBFirst, data, 18);
    let num_screens = data[20];
    let num_formats = data[21];
    let image_byte_order = if data[22] == 0 {
        ByteOrder::LSBFirst
    } else {
        ByteOrder::MSBFirst
    };
    let bitmap_bit_order = if data[23] == 0 {
        ByteOrder::LSBFirst
    } else {
        ByteOrder::MSBFirst
    };
    let bitmap_scanline_unit = data[24];
    let bitmap_scanline_pad = data[25];
    let min_keycode = data[26];
    let max_keycode = data[27];

    // Vendor string
    let vendor = if data.len() > 32 + vendor_len {
        string_from_utf8_lossy(vstd::slice::slice_subrange(data, 32, 32 + vendor_len))
    } else {
        String::new()
    };

    // Formats, then screens, after the padded vendor string
    let formats_start = 32 + padded_len(vendor_len);
    let (formats, roots) = if formats_start <= data.len() {
        let (formats, after_formats) = read_formats(data, formats_start, num_formats);
        let (roots, _) = read_screens(data, after_formats, num_screens);
        (formats, roots)
    } else {
        proof {
            lemma_nothing_past_end(data@, formats_start as int, num_formats as nat, num_screens as nat);
            assert(Seq::<Screen>::empty().map_values(|sc: Screen| screen_view(sc)) =~= Seq::<
                ScreenView,
            >::empty());
        }
        (Vec::new(), Vec::new())
    };

    Ok(
        SetupSuccess {
            protocol_major_version: protocol_major,
            protocol_minor_version: protocol_minor,
            release_number,
            resource_id_base,
            resource_id_mask,
            motion_buffer_size,
            maximum_request_length: max_request_length,
            image_byte_order,
            bitmap_format_bit_order: bitmap_bit_order,
            bitmap_format_scanline_unit: bitmap_scanline_unit,
            bitmap_format_scanline_pad: bitmap_scanline_pad,
            min_keycode,
            max_keycode,
            vendor,
            pixmap_formats: formats,
            roots,
        },
    )
}

/// The 16-bit value at `off`, most significant byte first, as `.Xauthority` files
/// hold their lengths.
pub open spec fn be16(d: Seq<u8>, off: int) -> u16 {
    u16_at(ByteOrder::MSBFirst, d, off)
}

/// The authorization (name and data) that the entries of an `.Xauthority` file from
/// `off` on give for display `display`: the first entry of the local or internet
/// family whose display number reads as `display`. An entry is a big-endian family,
/// then an address, a display number, a name and data, each a big-endian length and
/// that many bytes. Reading stops, with no authorization, at the end of the data or
/// at an entry cut short.
pub open spec fn xauth_from(d: Seq<u8>, off: int, display: Seq<char>) -> (Seq<char>, Seq<u8>)
    decreases d.len() - off,
{
    let none = (Seq::<char>::empty(), Seq::<u8>::empty());
    if off < 0 || off >= d.len() || !fits(d, off, 4) {
        none
    } else {
        let family = be16(d, off);
        let addr = off + 2;
        let num = addr + 2 + be16(d, addr);
        if !fits(d, addr + 2, be16(d, addr) as int) || !fits(d, num, 2) || !fits(d, num
            + 2, be16(d, num) as int) {
            none
        } else {
            let name = num + 2 + be16(d, num);
            if !fits(d, name, 2) || !fits(d, name + 2, be16(d, name) as int) {
                none
            } else {
                let auth = name + 2 + be16(d, name);
                if !fits(d, auth, 2) || !fits(d, auth + 2, be16(d, auth) as int) {
                    none
                } else {
                    let next = auth + 2 + be16(d, auth);
                    if (family == 0x0100 || family == 0) && text_of(
                        d.subrange(num + 2, num + 2 + be16(d, num)),
                    ) == display {
                        (
                            text_of(d.subrange(name + 2, name + 2 + be16(d, name))),
                            d.subrange(auth + 2, next),
                        )
                    } else {
                        xauth_from(d, next, display)
                    }
                }
            }
        }
    }
}

/// Reads the length field at `off`, if its two bytes are there.
fn read_len(data: &[u8], off: usize) -> (r: Option<usize>)
    requires
        off <= data@.len(),
    ensures
        match r {
            Some(n) => fits(data@, off as int, 2) && n == be16(data@, off as int),
            None => !fits(data@, off as int, 2),
        },
{
    if data.len() - off < 2 {
        None
    } else {
        Some(read_u16_at(ByteOrder::MSBFirst, data, off) as usize)
    }
}

/// What reading one `.Xauthority` entry gives.
enum EntryStep {
    /// The entry is cut short, or there is none: reading stops.
    Stop,
    /// The entry is for the display: its name and data.
    Found(String, Vec<u8>),
    /// The entry is for another display; the next one starts here.
    Next(usize),
}

/// Reads the entry at `off` (see `xauth_from`).
fn read_entry(data: &[u8], off: usize, display: &String) -> (r: EntryStep)
    requires
        off < data@.len(),
    ensures
        match r {
            EntryStep::Stop => xauth_from(data@, off as int, display@) == (
                Seq::<char>::empty(),
                Seq::<u8>::empty(),
            ),
            EntryStep::Found(name, auth) => xauth_from(data@, off as int, display@) == (
                name@,
                auth@,
            ),
            EntryStep::Next(next) => off < next <= data@.len() && xauth_from(
                data@,
                off as int,
                display@,
            ) == xauth_from(data@, next as int, display@),
        },
{
    let family = match read_len(data, off) {
        Some(f) => f,
        None => return EntryStep::Stop,
    };
    // A slice's length is a usize
    let _total = data.len();
    let addr = off + 2;
    let addr_len = match read_len(data, addr) {
        Some(n) => n,
        None => return EntryStep::Stop,
    };
    if data.len() - (addr + 2) < addr_len {
        return EntryStep::Stop;
    }
    let num = addr + 2 + addr_len;
    let num_len = match read_len(data, num) {
        Some(n) => n,
        None => return EntryStep::Stop,
    };
    if data.len() - (num + 2) < num_len {
        return EntryStep::Stop;
    }
    let name = num + 2 + num_len;
    let name_len = match read_len(data, name) {
        Some(n) => n,
        None => return EntryStep::Stop,
    };
    if data.len() - (name + 2) < name_len {
        return EntryStep::Stop;
    }
    let auth = name + 2 + name_len;
    let auth_len = match read_len(data, auth) {
        Some(n) => n,
        None => return EntryStep::Stop,
    };
    if data.len() - (auth + 2) < auth_len {
        return EntryStep::Stop;
    }
    let next = auth + 2 + auth_len;
    let number = string_from_utf8_lossy(vstd::slice::slice_subrange(data, num + 2, name));

    // Family 0x0100 = FamilyLocal, 0x0000 = FamilyInternet
    if (family == 0x0100 || family == 0) && number == *display {
        let auth_name = string_from_utf8_lossy(vstd::slice::slice_subrange(data, name + 2, auth));
        let mut auth_data: Vec<u8> = Vec::new();
        push_bytes(&mut auth_data, vstd::slice::slice_subrange(data, auth + 2, next));
        EntryStep::Found(auth_name, auth_data)
    } else {
        EntryStep::Next(next)
    }
}

/// The index of the first character of `s` at or after `i` that is not a colon.
pub open spec fn past_colons(s: Seq<char>, i: int) -> int
    decreases s.len() - i,
{
    if 0 <= i < s.len() && s[i] == ':' {
        past_colons(s, i + 1)
    } else {
        i
    }
}

/// The index of the first dot of `s` at or after `i`, or the length of `s`.
pub open spec fn dot_at_or_after(s: Seq<char>, i: int) -> int
    decreases s.len() - i,
{
    if 0 <= i < s.len() && s[i] != '.' {
        dot_at_or_after(s, i + 1)
    } else {
        i
    }
}

/// The display number of a display name such as `:1` or `:1.0`: what stands after the
/// leading colons and before the first dot, read as a number.
pub open spec fn display_number_of(name: Seq<char>) -> Option<usize> {
    let start = past_colons(name, 0);
    parse_usize_spec(name.subrange(start, dot_at_or_after(name, start)))
}

/// The display number that the authorization is looked up by: all that follows the
/// leading colons read as a number, and 0 where it is not one.
pub open spec fn auth_display_number_of(name: Seq<char>) -> usize {
    match parse_usize_spec(name.skip(past_colons(name, 0))) {
        Some(n) => n,
        None => 0,
    }
}

/// A stretch of `s` from `i` to `j` with no dot, ended by a dot or by the end of `s`,
/// puts the first dot at or after `i` at `j`.
proof fn lemma_dot_after(s: Seq<char>, i: int, j: int)
    requires
        0 <= i <= j <= s.len(),
        forall|k: int| i <= k < j ==> #[trigger] s[k] != '.',
        j == s.len() || s[j] == '.',
    ensures
        dot_at_or_after(s, i) == j,
    decreases j - i,
{
    if i < j {
        lemma_dot_after(s, i + 1, j);
    }
}

/// A display name of one colon and the decimal digits of `n`, with or without a dot
/// and a screen number after them, names display `n`; the authorization is looked up
/// by `n` too when no screen follows.
pub proof fn lemma_display_number_reads_decimal(n: usize, screen: Seq<char>)
    ensures
        display_number_of(seq![':'] + decimal_digits(n as nat)) == Some(n),
        display_number_of(seq![':'] + decimal_digits(n as nat) + seq!['.'] + screen) == Some(n),
        auth_display_number_of(seq![':'] + decimal_digits(n as nat)) == n,
{
    let d = decimal_digits(n as nat);
    lemma_decimal_digits_value(n as nat);
    lemma_parse_reads_decimal(n as nat);
    let a = seq![':'] + d;
    let b = seq![':'] + d + seq!['.'] + screen;
    assert(a[1] == d[0] && b[1] == d[0]);
    assert(past_colons(a, 1) == 1);
    assert(past_colons(a, 0) == 1);
    assert(past_colons(b, 1) == 1);
    assert(past_colons(b, 0) == 1);
    assert forall|k: int| 1 <= k < 1 + d.len() implies #[trigger] a[k] != '.' by {
        assert(a[k] == d[k - 1]);
    }
    assert forall|k: int| 1 <= k < 1 + d.len() implies #[trigger] b[k] != '.' by {
        assert(b[k] == d[k - 1]);
    }
    lemma_dot_after(a, 1, 1 + d.len() as int);
    lemma_dot_after(b, 1, 1 + d.len() as int);
    assert(a.subrange(1, 1 + d.len() as int) =~= d);
    assert(b.subrange(1, 1 + d.len() as int) =~= d);
    assert(a.skip(1) =~= d);
}

/// The index of the first character of `s` at or after `from` that is not a colon.
fn skip_colons(s: &str, from: usize) -> (r: usize)
    requires
        from <= s@.len(),
    ensures
        r == past_colons(s@, from as int),
        from <= r <= s@.len(),
{
    let n = s.unicode_len();
    let mut i = from;
    while i < n && s.get_char(i) == ':'
        invariant
            from <= i <= n,
            n == s@.len(),
            past_colons(s@, i as int) == past_colons(s@, from as int),
        decreases n - i,
    {
        i = i + 1;
    }
    i
}

/// The display number of the display name `name` (see `display_number_of`).
pub fn display_number(name: &str) -> (r: Option<usize>)
    ensures
        r == display_number_of(name@),
{
    let n = name.unicode_len();
    let start = skip_colons(name, 0);
    let mut end = start;
    while end < n && name.get_char(end) != '.'
        invariant
            start <= end <= n,
            n == name@.len(),
            dot_at_or_after(name@, end as int) == dot_at_or_after(name@, start as int),
        decreases n - end,
    {
        end = end + 1;
    }
    parse_usize(name.substring_char(start, end))
}

/// The display number that the authorization is looked up by (see
/// `auth_display_number_of`).
pub fn auth_display_number(name: &str) -> (r: usize)
    ensures
        r == auth_display_number_of(name@),
{
    let n = name.unicode_len();
    let start = skip_colons(name, 0);
    let rest = name.substring_char(start, n);
    assert(rest@ =~= name@.skip(start as int));
    match parse_usize(rest) {
        Some(d) => d,
        None => 0,
    }
}

/// The authorization that the contents of an `.Xauthority` file hold for display
/// number `display_num` (see `xauth_from`); an empty name and data when there is none.
pub fn xauthority_entry(data: &[u8], display_num: usize) -> (r: (String, Vec<u8>))
    ensures
        (r.0@, r.1@) == xauth_from(data@, 0, decimal_digits(display_num as nat)),
{
    let display_str = decimal_string(display_num);
    let ghost display = decimal_digits(display_num as nat);
    let mut offset: usize = 0;

    // Parse .Xauthority entries
    while offset < data.len()
        invariant
            offset <= data@.len(),
            display == decimal_digits(display_num as nat),
            display_str@ == display,
            xauth_from(data@, offset as int, display) == xauth_from(data@, 0, display),
        decreases data@.len() - offset,
    {
        let step = read_entry(data, offset, &display_str);
        match step {
            EntryStep::Stop => {
                return (String::new(), Vec::new());
            },
            EntryStep::Found(name, auth) => {
                return (name, auth);
            },
            EntryStep::Next(next) => {
                offset = next;
            },
        }
    }

    // No auth found - return empty
    (String::new(), Vec::new())
}

/// The connection setup request that the backend sends: least significant byte
/// first, protocol 11.0, then the authorization name and data, each padded to a
/// multiple of four bytes.
pub open spec fn handshake_bytes(name: Seq<u8>, data: Seq<u8>) -> Seq<u8> {
    seq![108u8, 0u8] + u16_bytes(ByteOrder::LSBFirst, 11) + u16_bytes(ByteOrder::LSBFirst, 0)
        + u16_bytes(ByteOrder::LSBFirst, name.len() as u16) + u16_bytes(
        ByteOrder::LSBFirst,
        data.len() as u16,
    ) + zeros(2) + name + zeros(spec_pad(name.len() as int) as nat) + data + zeros(
        spec_pad(data.len() as int) as nat,
    )
}

/// Builds the connection setup request with the given authorization.
pub fn handshake_request(auth_name: &str, auth_data: &[u8]) -> (r: Vec<u8>)
    ensures
        r@ == handshake_bytes(encode_utf8(auth_name@), auth_data@),
{
    let name = auth_name.as_bytes();
    let mut setup_bytes: Vec<u8> = Vec::new();
    setup_bytes.push(108u8);  // 'l': LSB first
    setup_bytes.push(0u8);  // Padding
    push_u16(&mut setup_bytes, ByteOrder::LSBFirst, 11);  // Protocol major
    push_u16(&mut setup_bytes, ByteOrder::LSBFirst, 0);  // Protocol minor
    push_u16(&mut setup_bytes, ByteOrder::LSBFirst, name.len() as u16);
    push_u16(&mut setup_bytes, ByteOrder::LSBFirst, auth_data.len() as u16);
    push_zeros(&mut setup_bytes, 2);  // Padding

    // Auth name and data, each padded to 4 bytes
    push_bytes(&mut setup_bytes, name);
    push_zeros(&mut setup_bytes, pad(name.len()));
    push_bytes(&mut setup_bytes, auth_data);
    push_zeros(&mut setup_bytes, pad(auth_data.len()));
    assert(setup_bytes@ =~= handshake_bytes(name@, auth_data@));
    setup_bytes
}

/// The setup request the backend sends is one that a server reads back, the
/// request-side parser of this library among them: byte order, protocol 11.0, and
/// the authorization it carries, when both parts fit their 16-bit length fields.
pub proof fn lemma_handshake_reads_back(name: Seq<u8>, data: Seq<u8>, r: SetupRequest)
    requires
        name.len() <= 65535,
        data.len() <= 65535,
    ensures
        setup_parse_error(handshake_bytes(name, data)) is None,
        setup_parsed_as(handshake_bytes(name, data), r) <==> {
            &&& r.byte_order == ByteOrder::LSBFirst
            &&& r.protocol_major_version == 11
            &&& r.protocol_minor_version == 0
            &&& r.authorization_protocol_name@ == text_of(name)
            &&& r.authorization_protocol_data@ == data
        },
{
    let b = handshake_bytes(name, data);
    lemma_u16_roundtrip(ByteOrder::LSBFirst, 11);
    lemma_u16_roundtrip(ByteOrder::LSBFirst, 0);
    lemma_u16_roundtrip(ByteOrder::LSBFirst, name.len() as u16);
    lemma_u16_roundtrip(ByteOrder::LSBFirst, data.len() as u16);
    let name_end: int = 12 + name.len() as int;
    let data_start: int = name_end + spec_pad(name.len() as int);
    assert(b.subrange(12, name_end) =~= name);
    assert(b.subrange(data_start, data_start + data.len()) =~= data);
}

/// How many bytes of setup reply follow its 8-byte header.
pub fn setup_reply_data_len(header: &[u8]) -> (r: usize)
    requires
        header@.len() >= 8,
    ensures
        r == le16(header@, 6) * 4,
{
    (read_u16_at(ByteOrder::LSBFirst, header, 6) as usize) * 4
}

/// The reason a server gives for refusing the connection: as many bytes of the data
/// as the header's second byte says, but no more than the data's length cut to a byte.
pub open spec fn refusal_reason(header: Seq<u8>, data: Seq<u8>) -> Seq<char> {
    let n = if header[1] < (data.len() as u8) {
        header[1]
    } else {
        data.len() as u8
    };
    text_of(data.take(n as int))
}

/// What the server's reply to the connection setup comes to: its setup, when the
/// status byte says success, and otherwise an error with the server's reason.
pub fn setup_outcome(header: &[u8], data: &[u8]) -> (r: Result<SetupSuccess, BackendError>)
    requires
        header@.len() >= 8,
        header@[0] == 1 ==> data@.len() >= 28,
    ensures
        header@[0] == 1 ==> (r matches Ok(s) && setup_read_from(header@, data@, s)),
        header@[0] != 1 ==> (r matches Err(e) && e.message@ == "X server rejected connection: "@
            + refusal_reason(header@, data@)),
{
    let status = header[0];
    if status != 1 {
        let limit = data.len() as u8;
        let n = if header[1] < limit {
            header[1]
        } else {
            limit
        };
        let reason = string_from_utf8_lossy(vstd::slice::slice_subrange(data, 0, n as usize));
        let message = "X server rejected connection: ".to_string().concat(reason.as_str());
        return Err(BackendError::new(message));
    }
    parse_setup_success(header, data)
}

/// `std::str::from_utf8`: the text of `bytes` when they are valid UTF-8, and nothing
/// otherwise, as the standard library documents it.
#[verifier::external_body]
fn str_from_utf8(bytes: &[u8]) -> (r: Option<&str>)
    ensures
        r is Some <==> vstd::utf8::valid_utf8(bytes@),
        r matches Some(s) ==> s@ == vstd::utf8::decode_utf8(bytes@),
{
    std::str::from_utf8(bytes).ok()
}

/// What the first 32 bytes of the server's answer to a request say: how many more
/// bytes of reply follow, or why there is no reply to read.
pub fn reply_data_len(header: &[u8]) -> (r: Result<usize, BackendError>)
    requires
        header@.len() >= 8,
    ensures
        header@[0] == 0 ==> (r matches Err(e) && e.message@ == "X11 error: code="@ + decimal_digits(
            header@[1] as nat,
        )),
        header@[0] > 1 ==> (r matches Err(e) && e.message@ == "Unexpected reply type: "@
            + decimal_digits(header@[0] as nat)),
        header@[0] == 1 && le32(header@, 4) * 4 <= usize::MAX ==> r == Ok::<usize, BackendError>(
            (le32(header@, 4) * 4) as usize,
        ),
        header@[0] == 1 && le32(header@, 4) * 4 > usize::MAX ==> r is Err,
{
    let reply_type = header[0];
    if reply_type == 0 {
        // Error response
        let code = decimal_string(header[1] as usize);
        return Err(BackendError::new("X11 error: code=".to_string().concat(code.as_str())));
    }
    if reply_type != 1 {
        let t = decimal_string(reply_type as usize);
        return Err(BackendError::new("Unexpected reply type: ".to_string().concat(t.as_str())));
    }
    // The additional data length, in 4-byte units
    let additional_length = read_u32_at(ByteOrder::LSBFirst, header, 4) as usize;
    match additional_length.checked_mul(4) {
        Some(n) => Ok(n),
        None => Err(BackendError::new("Reply too long".to_string())),
    }
}

/// The depth, the visual and the image data of a GetImage reply.
pub fn image_reply(reply: &[u8]) -> (r: Result<(u8, u32, Vec<u8>), BackendError>)
    ensures
        reply@.len() < 32 ==> r is Err,
        reply@.len() >= 32 ==> (r matches Ok((depth, visual, image)) && depth == reply@[1]
            && visual
            == le32(reply@, 8) && image@ == reply@.skip(32)),
{
    if reply.len() < 32 {
        return Err(BackendError::new("GetImage reply too short".to_string()));
    }
    let depth = reply[1];
    let visual = read_u32_at(ByteOrder::LSBFirst, reply, 8);

    // Image data follows the 32-byte header
    let mut image_data: Vec<u8> = Vec::new();
    push_bytes(&mut image_data, vstd::slice::slice_subrange(reply, 32, reply.len()));
    Ok((depth, visual, image_data))
}

/// `b` split at each byte `sep`: the pieces between the separators, in order.
pub open spec fn split_on(b: Seq<u8>, sep: u8) -> Seq<Seq<u8>>
    decreases b.len(),
{
    if b.len() == 0 {
        seq![Seq::empty()]
    } else {
        let pieces = split_on(b.drop_last(), sep);
        if b.last() == sep {
            pieces.push(Seq::empty())
        } else {
            pieces.update(pieces.len() - 1, pieces.last().push(b.last()))
        }
    }
}

proof fn lemma_split_on_nonempty(b: Seq<u8>, sep: u8)
    ensures
        split_on(b, sep).len() >= 1,
    decreases b.len(),
{
    if b.len() > 0 {
        lemma_split_on_nonempty(b.drop_last(), sep);
    }
}

/// Splits `bytes` at each `sep`.
fn split_bytes(bytes: &[u8], sep: u8) -> (r: Vec<Vec<u8>>)
    ensures
        r@.map_values(|v: Vec<u8>| v@) == split_on(bytes@, sep),
{
    let mut parts: Vec<Vec<u8>> = Vec::new();
    let mut current: Vec<u8> = Vec::new();
    let mut i: usize = 0;
    while i < bytes.len()
        invariant
            i <= bytes@.len(),
            parts@.map_values(|v: Vec<u8>| v@).push(current@) == split_on(bytes@.take(i as int), sep),
        decreases bytes@.len() - i,
    {
        proof {
            lemma_split_on_nonempty(bytes@.take(i as int), sep);
        }
        let ghost before = parts@.map_values(|v: Vec<u8>| v@).push(current@);
        assert(bytes@.take(i + 1).drop_last() =~= bytes@.take(i as int));
        if bytes[i] == sep {
            let piece = current;
            current = Vec::new();
            parts.push(piece);
            assert(parts@.map_values(|v: Vec<u8>| v@).push(current@) =~= before.push(Seq::empty()));
        } else {
            current.push(bytes[i]);
            assert(parts@.map_values(|v: Vec<u8>| v@).push(current@) =~= before.update(
                before.len() - 1,
                before.last().push(bytes@[i as int]),
            ));
        }
        i = i + 1;
    }
    assert(bytes@.take(bytes@.len() as int) =~= bytes@);
    parts.push(current);
    parts
}

/// The number in a field of a font name, 0 when it is not one.
pub open spec fn xlfd_number(field: Seq<u8>) -> u16 {
    match parse_u16_spec(text_of(field)) {
        Some(v) => v,
        None => 0,
    }
}

/// The description of the font named `name` in the X logical font description form
/// `-foundry-family-weight-slant-setwidth-addstyle-pixel-point-resx-resy-spacing-avgwidth-registry-encoding`:
/// none when the name has fewer than 15 dash-separated fields. Ascent and descent are
/// guessed from the pixel size: three quarters and a quarter of it in 16-bit
/// arithmetic, or 10 and 3 when the size is 0.
pub open spec fn xlfd_spec(name: Seq<char>) -> Option<FontView> {
    let parts = split_on(encode_utf8(name), 45);
    if parts.len() < 15 {
        None
    } else {
        let pixel_size = xlfd_number(parts[7]);
        Some(
            FontView {
                xlfd_name: name,
                family: text_of(parts[2]),
                weight: text_of(parts[3]),
                slant: text_of(parts[4]),
                pixel_size,
                point_size: xlfd_number(parts[8]),
                char_width: xlfd_number(parts[12]),
                ascent: if pixel_size > 0 {
                    div_toward_zero(((pixel_size as i16) * 3) as i16 as int, 4) as i16
                } else {
                    10
                },
                descent: if pixel_size > 0 {
                    div_toward_zero(pixel_size as i16 as int, 4) as i16
                } else {
                    3
                },
                registry: text_of(parts[13]),
                encoding: text_of(parts[14]),
            },
        )
    }
}

/// The fields joined by dashes, each after a dash of its own: the form of a font
/// name, whose first dash comes before the foundry.
pub open spec fn dash_joined(fields: Seq<Seq<u8>>) -> Seq<u8>
    decreases fields.len(),
{
    if fields.len() == 0 {
        Seq::empty()
    } else {
        dash_joined(fields.drop_last()) + seq![45u8] + fields.last()
    }
}

/// Splitting at a separator splits each side of it apart.
proof fn lemma_split_on_joined(a: Seq<u8>, b: Seq<u8>, sep: u8)
    ensures
        split_on(a + seq![sep] + b, sep) == split_on(a, sep) + split_on(b, sep),
    decreases b.len(),
{
    let j = a + seq![sep] + b;
    if b.len() == 0 {
        assert(j.drop_last() =~= a);
    } else {
        lemma_split_on_joined(a, b.drop_last(), sep);
        lemma_split_on_nonempty(b.drop_last(), sep);
        assert(j.drop_last() =~= a + seq![sep] + b.drop_last());
        let left = split_on(a, sep);
        let right = split_on(b.drop_last(), sep);
        if b.last() == sep {
            assert(split_on(j, sep) =~= left + right.push(Seq::empty()));
        } else {
            assert((left + right).last() == right.last());
            assert(split_on(j, sep) =~= left + right.update(
                right.len() - 1,
                right.last().push(b.last()),
            ));
        }
    }
}

/// Bytes without the separator are one piece.
proof fn lemma_split_on_unbroken(b: Seq<u8>, sep: u8)
    requires
        forall|i: int| 0 <= i < b.len() ==> #[trigger] b[i] != sep,
    ensures
        split_on(b, sep) == seq![b],
    decreases b.len(),
{
    if b.len() > 0 {
        lemma_split_on_unbroken(b.drop_last(), sep);
        assert(b.drop_last().push(b.last()) =~= b);
        assert(b[b.len() - 1] != sep);
        assert(split_on(b, sep) =~= seq![b]);
    } else {
        assert(b =~= Seq::<u8>::empty());
    }
}

/// Fields without dashes, joined by dashes, split back into an empty piece before
/// the first dash and the fields.
pub proof fn lemma_dash_joined_splits(fields: Seq<Seq<u8>>)
    requires
        forall|k: int, i: int|
            0 <= k < fields.len() && 0 <= i < fields[k].len() ==> #[trigger] fields[k][i] != 45,
    ensures
        split_on(dash_joined(fields), 45) == seq![Seq::<u8>::empty()] + fields,
    decreases fields.len(),
{
    if fields.len() == 0 {
        assert(split_on(dash_joined(fields), 45) =~= seq![Seq::<u8>::empty()] + fields);
    } else {
        let init = fields.drop_last();
        assert forall|k: int, i: int| 0 <= k < init.len()
            && 0 <= i < init[k].len() implies #[trigger] init[k][i]
            != 45 by {
            assert(init[k] == fields[k]);
        }
        lemma_dash_joined_splits(init);
        let last = fields.last();
        assert forall|i: int| 0 <= i < last.len() implies #[trigger] last[i] != 45 by {
            assert(last[i] == fields[fields.len() - 1][i]);
        }
        lemma_split_on_unbroken(last, 45);
        lemma_split_on_joined(dash_joined(init), last, 45);
        assert(split_on(dash_joined(fields), 45) =~= seq![Seq::<u8>::empty()] + fields);
    }
}

/// A font name of at least fourteen dash-led fields (foundry, family, weight, slant,
/// set width, added style, pixel size, point size, two resolutions, spacing, average
/// width, registry and encoding) is read field by field: the family, weight and
/// slant from the second, third and fourth fields, the pixel and point sizes from
/// the seventh and eighth, the character width from the twelfth, and the registry
/// and encoding from the thirteenth and fourteenth. With fewer fields it is no font
/// name.
pub proof fn lemma_xlfd_fields(name: Seq<char>, fields: Seq<Seq<u8>>)
    requires
        encode_utf8(name) == dash_joined(fields),
        forall|k: int, i: int|
            0 <= k < fields.len() && 0 <= i < fields[k].len() ==> #[trigger] fields[k][i] != 45,
    ensures
        fields.len() < 14 ==> xlfd_spec(name) is None,
        fields.len() >= 14 ==> (xlfd_spec(name) matches Some(f) && f.xlfd_name == name && f.family
            == text_of(fields[1]) && f.weight == text_of(fields[2])
                && f.slant == text_of(fields[3])
            && f.pixel_size == xlfd_number(fields[6]) && f.point_size == xlfd_number(fields[7])
            && f.char_width == xlfd_number(fields[11]) && f.registry == text_of(fields[12])
            && f.encoding == text_of(fields[13])),
{
    lemma_dash_joined_splits(fields);
    let parts = seq![Seq::<u8>::empty()] + fields;
    assert(parts.len() == fields.len() + 1);
    if fields.len() >= 14 {
        assert(parts[2] == fields[1] && parts[3] == fields[2] && parts[4] == fields[3]);
        assert(parts[7] == fields[6] && parts[8] == fields[7] && parts[12] == fields[11]);
        assert(parts[13] == fields[12] && parts[14] == fields[13]);
    }
}

/// The number in a field of a font name, 0 when it is not one.
fn field_number(field: &Vec<u8>) -> (r: u16)
    ensures
        r == xlfd_number(field@),
{
    let text = string_from_utf8_lossy(field.as_slice());
    match parse_u16(text.as_str()) {
        Some(v) => v,
        None => 0,
    }
}

/// Parse an XLFD font name into BackendFontInfo
pub fn parse_xlfd(xlfd: &str) -> (r: Option<BackendFontInfo>)
    ensures
        match r {
            Some(f) => xlfd_spec(xlfd@) == Some(font_view(f)),
            None => xlfd_spec(xlfd@) is None,
        },
{
    let parts = split_bytes(xlfd.as_bytes(), 45);
    let ghost views = parts@.map_values(|v: Vec<u8>| v@);
    if parts.len() < 15 {
        return None;
    }
    assert(views[2] == parts@[2]@ && views[3] == parts@[3]@ && views[4] == parts@[4]@);
    assert(views[7] == parts@[7]@ && views[8] == parts@[8]@ && views[12] == parts@[12]@);
    assert(views[13] == parts@[13]@ && views[14] == parts@[14]@);

    let family = string_from_utf8_lossy(parts[2].as_slice());
    let weight = string_from_utf8_lossy(parts[3].as_slice());
    let slant = string_from_utf8_lossy(parts[4].as_slice());

    let pixel_size = field_number(&parts[7]);
    let point_size = field_number(&parts[8]);
    let char_width = field_number(&parts[12]);

    let registry = string_from_utf8_lossy(parts[13].as_slice());
    let encoding = string_from_utf8_lossy(parts[14].as_slice());

    // For ascent/descent, we'd need to query font properties
    // Use reasonable defaults based on pixel size
    let ascent: i16 = if pixel_size > 0 {
        (((pixel_size as i16) as i32 * 3) as i16) / 4
    } else {
        10
    };
    let descent: i16 = if pixel_size > 0 {
        (pixel_size as i16) / 4
    } else {
        3
    };
    proof {
        if pixel_size > 0 {
            let m = ((pixel_size as i16) * 3) as i16;
            lemma_i16_quarter(m);
            lemma_i16_quarter(pixel_size as i16);
        }
    }

    Some(
        BackendFontInfo {
            xlfd_name: xlfd.to_string(),
            family,
            weight,
            slant,
            pixel_size,
            point_size,
            char_width,
            ascent,
            descent,
            registry,
            encoding,
        },
    )
}

/// Rust's quarter of a 16-bit value, rounded toward zero.
proof fn lemma_i16_quarter(v: i16)
    ensures
        (if v >= 0 {
            (v / 4) as i16
        } else {
            (-((-v) / 4)) as i16
        }) == div_toward_zero(v as int, 4) as i16,
{
}

/// The names of a ListFonts reply from `off` on: up to `n` names, each a length
/// byte and that many bytes; reading stops at the end of the data or at a name cut
/// short.
pub open spec fn font_names_from(d: Seq<u8>, off: int, n: nat) -> Seq<Seq<u8>>
    decreases n,
{
    if n == 0 || off < 0 || off >= d.len() {
        Seq::empty()
    } else {
        let len = d[off] as int;
        if off + 1 + len > d.len() {
            Seq::empty()
        } else {
            seq![d.subrange(off + 1, off + 1 + len)] + font_names_from(d, off + 1
                + len, (n - 1) as nat)
        }
    }
}

/// The fonts that the names describe: those that are valid UTF-8 and in the XLFD form.
pub open spec fn fonts_of(names: Seq<Seq<u8>>) -> Seq<FontView>
    decreases names.len(),
{
    if names.len() == 0 {
        Seq::empty()
    } else {
        let fonts = fonts_of(names.drop_last());
        let name = names.last();
        if vstd::utf8::valid_utf8(name) && xlfd_spec(vstd::utf8::decode_utf8(name)) is Some {
            fonts.push(xlfd_spec(vstd::utf8::decode_utf8(name))->0)
        } else {
            fonts
        }
    }
}

/// The fonts of a ListFonts reply (see `font_names_from` and `fonts_of`).
pub fn list_fonts_reply(reply: &[u8]) -> (r: Result<Vec<BackendFontInfo>, BackendError>)
    ensures
        reply@.len() < 32 ==> r is Err,
        reply@.len() >= 32 ==> (r matches Ok(fonts) && fonts@.map_values(
            |f: BackendFontInfo| font_view(f),
        ) == fonts_of(font_names_from(reply@, 32, le16(reply@, 8) as nat))),
{
    if reply.len() < 32 {
        return Err(BackendError::new("Invalid ListFonts reply".to_string()));
    }
    let num_fonts = read_u16_at(ByteOrder::LSBFirst, reply, 8);
    let ghost all = font_names_from(reply@, 32, num_fonts as nat);
    let ghost mut read: Seq<Seq<u8>> = Seq::empty();
    let mut fonts: Vec<BackendFontInfo> = Vec::new();
    // Start after header
    let mut offset: usize = 32;
    let mut i: u16 = 0;
    while i < num_fonts
        invariant
            i <= num_fonts,
            offset <= reply@.len(),
            all == font_names_from(reply@, 32, num_fonts as nat),
            all == read + font_names_from(reply@, offset as int, (num_fonts - i) as nat),
            fonts@.map_values(|f: BackendFontInfo| font_view(f)) == fonts_of(read),
        ensures
            all == read,
            fonts@.map_values(|f: BackendFontInfo| font_view(f)) == fonts_of(read),
        decreases num_fonts - i,
    {
        if offset >= reply.len() {
            assert(all =~= read);
            break;
        }
        // Each name is: length(1), name(length)
        let name_len = reply[offset] as usize;
        if reply.len() - (offset + 1) < name_len {
            assert(all =~= read);
            break;
        }
        let name = vstd::slice::slice_subrange(reply, offset + 1, offset + 1 + name_len);
        let ghost before = fonts@.map_values(|f: BackendFontInfo| font_view(f));
        proof {
            assert(all =~= read.push(name@) + font_names_from(
                reply@,
                offset + 1 + name_len,
                (num_fonts - i - 1) as nat,
            ));
            let old_read = read;
            read = read.push(name@);
            assert(read.drop_last() =~= old_read);
        }
        match str_from_utf8(name) {
            Some(font_name) => {
                match parse_xlfd(font_name) {
                    Some(font_info) => {
                        fonts.push(font_info);
                        assert(fonts@.map_values(|f: BackendFontInfo| font_view(f)) =~= before.push(
                            font_view(font_info),
                        ));
                    },
                    None => {},
                }
            },
            None => {},
        }
        offset = offset + 1 + name_len;
        i = i + 1;
    }
    Ok(fonts)
}

} // verus!
