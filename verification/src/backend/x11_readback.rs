//! Replies as this library's server writes them and as its X server backend reads
//! them: the backend reads back what the server wrote, in the connection setup
//! reply and in the list of fonts.
use vstd::prelude::*;
use crate::protocol::setup::{
    depth_bytes, depths_bytes, format_bytes, formats_bytes, screen_bytes, screen_header,
    screens_bytes, success_bytes, success_fixed, success_tail, visual_bytes, visuals_bytes, Depth,
    Format, Screen, SetupSuccess, VisualType,
};
use crate::protocol::types::ByteOrder;
use crate::protocol::wire::{
    group_wire_lengths, lemma_u16_roundtrip, lemma_u32_roundtrip, u16_bytes,
    u32_bytes, zeros,
};
use crate::protocol::spec_pad;
use crate::protocol::encoder::{list_fonts_reply_bytes, names_bytes, reply_header, str_entries, str_entry, str_list};
use crate::backend::x11::{
    depth_view, depths_from, font_names_from, format_at, formats_from, le16, le32, screen_at,
    screen_view,
    screens_from, setup_read_from, visual_at, visuals_from, ScreenView,
};
use vstd::utf8::encode_utf8;

verus! {

broadcast use group_wire_lengths;

/// The 16-bit value whose bytes stand at `o` reads back.
proof fn lemma_le16_at(d: Seq<u8>, o: int, v: u16)
    requires
        0 <= o,
        o + 2 <= d.len(),
        d.subrange(o, o + 2) == u16_bytes(ByteOrder::LSBFirst, v),
    ensures
        le16(d, o) == v,
{
    lemma_u16_roundtrip(ByteOrder::LSBFirst, v);
    assert(d[o] == d.subrange(o, o + 2)[0]);
    assert(d[o + 1] == d.subrange(o, o + 2)[1]);
}

/// The 32-bit value whose bytes stand at `o` reads back.
proof fn lemma_le32_at(d: Seq<u8>, o: int, v: u32)
    requires
        0 <= o,
        o + 4 <= d.len(),
        d.subrange(o, o + 4) == u32_bytes(ByteOrder::LSBFirst, v),
    ensures
        le32(d, o) == v,
{
    lemma_u32_roundtrip(ByteOrder::LSBFirst, v);
    assert(d[o] == d.subrange(o, o + 4)[0]);
    assert(d[o + 1] == d.subrange(o, o + 4)[1]);
    assert(d[o + 2] == d.subrange(o, o + 4)[2]);
    assert(d[o + 3] == d.subrange(o, o + 4)[3]);
}

/// Where `b` stands at `o` in `d`, each part of `b` stands at its place in `d`.
proof fn lemma_part_at(d: Seq<u8>, o: int, b: Seq<u8>, k: int, n: int)
    requires
        0 <= o,
        o + b.len() <= d.len(),
        d.subrange(o, o + b.len()) == b,
        0 <= k,
        0 <= n,
        k + n <= b.len(),
    ensures
        d.subrange(o + k, o + k + n) == b.subrange(k, k + n),
{
    assert(d.subrange(o + k, o + k + n) =~= b.subrange(k, k + n));
}

/// A pixmap format written at `o` reads back.
proof fn lemma_format_at(d: Seq<u8>, o: int, f: Format)
    requires
        0 <= o,
        o + 8 <= d.len(),
        d.subrange(o, o + 8) == format_bytes(f),
    ensures
        format_at(d, o) == f,
{
    assert(d[o] == d.subrange(o, o + 8)[0]);
    assert(d[o + 1] == d.subrange(o, o + 8)[1]);
    assert(d[o + 2] == d.subrange(o, o + 8)[2]);
}

/// A visual type written at `o` reads back.
proof fn lemma_visual_at(d: Seq<u8>, o: int, v: VisualType)
    requires
        0 <= o,
        o + 24 <= d.len(),
        d.subrange(o, o + 24) == visual_bytes(v, ByteOrder::LSBFirst),
    ensures
        visual_at(d, o) == v,
{
    let b = visual_bytes(v, ByteOrder::LSBFirst);
    let l = ByteOrder::LSBFirst;
    lemma_part_at(d, o, b, 0, 4);
    assert(b.subrange(0, 4) =~= u32_bytes(l, v.visual_id.0));
    lemma_le32_at(d, o, v.visual_id.0);
    assert(d[o + 4] == b[4]);
    assert(d[o + 5] == b[5]);
    lemma_part_at(d, o, b, 6, 2);
    assert(b.subrange(6, 8) =~= u16_bytes(l, v.colormap_entries));
    lemma_le16_at(d, o + 6, v.colormap_entries);
    lemma_part_at(d, o, b, 8, 4);
    assert(b.subrange(8, 12) =~= u32_bytes(l, v.red_mask));
    lemma_le32_at(d, o + 8, v.red_mask);
    lemma_part_at(d, o, b, 12, 4);
    assert(b.subrange(12, 16) =~= u32_bytes(l, v.green_mask));
    lemma_le32_at(d, o + 12, v.green_mask);
    lemma_part_at(d, o, b, 16, 4);
    assert(b.subrange(16, 20) =~= u32_bytes(l, v.blue_mask));
    lemma_le32_at(d, o + 16, v.blue_mask);
}

/// Pixmap formats written one after another from `o` read back, and reading stops
/// after them.
proof fn lemma_formats_read(d: Seq<u8>, o: int, fs: Seq<Format>)
    requires
        0 <= o,
        o + formats_bytes(fs).len() <= d.len(),
        d.subrange(o, o + formats_bytes(fs).len()) == formats_bytes(fs),
    ensures
        formats_bytes(fs).len() == 8 * fs.len(),
        formats_from(d, o, fs.len()) == (fs, o + 8 * fs.len()),
    decreases fs.len(),
{
    if fs.len() > 0 {
        let init = fs.drop_last();
        let b = formats_bytes(fs);
        let n0 = formats_bytes(init).len() as int;
        assert(b == formats_bytes(init) + format_bytes(fs.last()));
        lemma_part_at(d, o, b, 0, n0);
        assert(b.subrange(0, n0) =~= formats_bytes(init));
        lemma_formats_read(d, o, init);
        lemma_part_at(d, o, b, n0, 8);
        assert(b.subrange(n0, n0 + 8) =~= format_bytes(fs.last()));
        lemma_format_at(d, o + n0, fs.last());
        assert(init.push(fs.last()) =~= fs);
    }
}

/// Visual types written one after another from `o` read back, and reading stops
/// after them.
proof fn lemma_visuals_read(d: Seq<u8>, o: int, vs: Seq<VisualType>)
    requires
        0 <= o,
        o + visuals_bytes(vs, ByteOrder::LSBFirst).len() <= d.len(),
        d.subrange(o, o + visuals_bytes(vs, ByteOrder::LSBFirst).len()) == visuals_bytes(
            vs,
            ByteOrder::LSBFirst,
        ),
    ensures
        visuals_bytes(vs, ByteOrder::LSBFirst).len() == 24 * vs.len(),
        visuals_from(d, o, vs.len()) == (vs, o + 24 * vs.len()),
    decreases vs.len(),
{
    if vs.len() > 0 {
        let l = ByteOrder::LSBFirst;
        let init = vs.drop_last();
        let b = visuals_bytes(vs, l);
        let n0 = visuals_bytes(init, l).len() as int;
        assert(b == visuals_bytes(init, l) + visual_bytes(vs.last(), l));
        lemma_part_at(d, o, b, 0, n0);
        assert(b.subrange(0, n0) =~= visuals_bytes(init, l));
        lemma_visuals_read(d, o, init);
        lemma_part_at(d, o, b, n0, 24);
        assert(b.subrange(n0, n0 + 24) =~= visual_bytes(vs.last(), l));
        lemma_visual_at(d, o + n0, vs.last());
        assert(init.push(vs.last()) =~= vs);
    }
}

/// The 32-bit field at `k` of `b`, which stands at `o` in `d`, reads back.
proof fn lemma_u32_field(d: Seq<u8>, o: int, b: Seq<u8>, k: int, v: u32)
    requires
        0 <= o,
        o + b.len() <= d.len(),
        d.subrange(o, o + b.len()) == b,
        0 <= k,
        k + 4 <= b.len(),
        b.subrange(k, k + 4) == u32_bytes(ByteOrder::LSBFirst, v),
    ensures
        le32(d, o + k) == v,
{
    lemma_part_at(d, o, b, k, 4);
    lemma_le32_at(d, o + k, v);
}

/// The 16-bit field at `k` of `b`, which stands at `o` in `d`, reads back.
proof fn lemma_u16_field(d: Seq<u8>, o: int, b: Seq<u8>, k: int, v: u16)
    requires
        0 <= o,
        o + b.len() <= d.len(),
        d.subrange(o, o + b.len()) == b,
        0 <= k,
        k + 2 <= b.len(),
        b.subrange(k, k + 2) == u16_bytes(ByteOrder::LSBFirst, v),
    ensures
        le16(d, o + k) == v,
{
    lemma_part_at(d, o, b, k, 2);
    lemma_le16_at(d, o + k, v);
}

/// Whether the number of visual types of each depth fits its 16-bit field.
pub open spec fn depths_fit(ds: Seq<Depth>) -> bool {
    forall|j: int| 0 <= j < ds.len() ==> #[trigger] ds[j].visuals@.len() <= u16::MAX
}

/// Depths written one after another from `o` read back, each with its visual types,
/// and reading stops after them.
proof fn lemma_depths_read(d: Seq<u8>, o: int, ds: Seq<Depth>)
    requires
        0 <= o,
        o + depths_bytes(ds, ByteOrder::LSBFirst).len() <= d.len(),
        d.subrange(o, o + depths_bytes(ds, ByteOrder::LSBFirst).len()) == depths_bytes(
            ds,
            ByteOrder::LSBFirst,
        ),
        depths_fit(ds),
    ensures
        depths_from(d, o, ds.len()) == (
            ds.map_values(|dp: Depth| depth_view(dp)),
            o + depths_bytes(ds, ByteOrder::LSBFirst).len(),
        ),
    decreases ds.len(),
{
    if ds.len() > 0 {
        let l = ByteOrder::LSBFirst;
        let init = ds.drop_last();
        let last = ds.last();
        let b = depths_bytes(ds, l);
        let n0 = depths_bytes(init, l).len() as int;
        assert(b == depths_bytes(init, l) + depth_bytes(last, l));
        lemma_part_at(d, o, b, 0, n0);
        assert(b.subrange(0, n0) =~= depths_bytes(init, l));
        assert(depths_fit(init)) by {
            assert forall|j: int| 0 <= j < init.len() implies #[trigger] init[j].visuals@.len()
                <= u16::MAX by {
                assert(init[j] == ds[j]);
            }
        }
        lemma_depths_read(d, o, init);
        let db = depth_bytes(last, l);
        let m = db.len() as int;
        let q = o + n0;
        lemma_part_at(d, o, b, n0, m);
        assert(b.subrange(n0, n0 + m) =~= db);
        assert(ds[ds.len() - 1].visuals@.len() <= u16::MAX);
        let vlen = last.visuals@.len() as u16;
        assert(d[q] == db[0]);
        lemma_part_at(d, q, db, 2, 2);
        assert(db.subrange(2, 4) =~= u16_bytes(l, vlen));
        lemma_le16_at(d, q + 2, vlen);
        lemma_part_at(d, q, db, 8, m - 8);
        assert(db.subrange(8, m) =~= visuals_bytes(last.visuals@, l));
        lemma_visuals_read(d, q + 8, last.visuals@);
        assert(ds.map_values(|dp: Depth| depth_view(dp)) =~= init.map_values(
            |dp: Depth| depth_view(dp),
        ).push(depth_view(last)));
    }
}

/// Whether the counts of a screen fit their fields: the number of depths its byte,
/// and the number of visual types of each depth.
pub open spec fn screen_fits(sc: Screen) -> bool {
    &&& sc.allowed_depths@.len() <= u8::MAX
    &&& depths_fit(sc.allowed_depths@)
}

/// The fixed fields of a screen header written at `o` read back.
proof fn lemma_screen_header_read(d: Seq<u8>, o: int, sc: Screen, ds: Seq<(u8, Seq<VisualType>)>)
    requires
        0 <= o,
        o + 40 <= d.len(),
        d.subrange(o, o + 40) == screen_header(sc, ByteOrder::LSBFirst),
    ensures
        screen_header(sc, ByteOrder::LSBFirst).len() == 40,
        screen_at(d, o, ds) == (ScreenView { depths: ds, ..screen_view(sc) }),
        d[o + 39] == sc.allowed_depths@.len() as u8,
{
    let l = ByteOrder::LSBFirst;
    let h = screen_header(sc, l);
    assert(h.subrange(0, 4) =~= u32_bytes(l, sc.root.0.0));
    lemma_u32_field(d, o, h, 0, sc.root.0.0);
    assert(h.subrange(4, 8) =~= u32_bytes(l, sc.default_colormap.0.0));
    lemma_u32_field(d, o, h, 4, sc.default_colormap.0.0);
    assert(h.subrange(8, 12) =~= u32_bytes(l, sc.white_pixel));
    lemma_u32_field(d, o, h, 8, sc.white_pixel);
    assert(h.subrange(12, 16) =~= u32_bytes(l, sc.black_pixel));
    lemma_u32_field(d, o, h, 12, sc.black_pixel);
    assert(h.subrange(16, 20) =~= u32_bytes(l, sc.current_input_masks));
    lemma_u32_field(d, o, h, 16, sc.current_input_masks);
    assert(h.subrange(20, 22) =~= u16_bytes(l, sc.width_in_pixels));
    lemma_u16_field(d, o, h, 20, sc.width_in_pixels);
    assert(h.subrange(22, 24) =~= u16_bytes(l, sc.height_in_pixels));
    lemma_u16_field(d, o, h, 22, sc.height_in_pixels);
    assert(h.subrange(24, 26) =~= u16_bytes(l, sc.width_in_millimeters));
    lemma_u16_field(d, o, h, 24, sc.width_in_millimeters);
    assert(h.subrange(26, 28) =~= u16_bytes(l, sc.height_in_millimeters));
    lemma_u16_field(d, o, h, 26, sc.height_in_millimeters);
    assert(h.subrange(28, 30) =~= u16_bytes(l, sc.min_installed_maps));
    lemma_u16_field(d, o, h, 28, sc.min_installed_maps);
    assert(h.subrange(30, 32) =~= u16_bytes(l, sc.max_installed_maps));
    lemma_u16_field(d, o, h, 30, sc.max_installed_maps);
    assert(h.subrange(32, 36) =~= u32_bytes(l, sc.root_visual.0));
    lemma_u32_field(d, o, h, 32, sc.root_visual.0);
    assert(d[o + 36] == h[36]);
    assert(d[o + 37] == h[37]);
    assert(d[o + 38] == h[38]);
    assert(d[o + 39] == h[39]);
}

/// A screen written at `o` reads back, with its depths and their visual types, and
/// reading stops after it.
proof fn lemma_screen_read(d: Seq<u8>, o: int, sc: Screen)
    requires
        0 <= o,
        o + screen_bytes(sc, ByteOrder::LSBFirst).len() <= d.len(),
        d.subrange(o, o + screen_bytes(sc, ByteOrder::LSBFirst).len()) == screen_bytes(
            sc,
            ByteOrder::LSBFirst,
        ),
        screen_fits(sc),
    ensures
        screen_bytes(sc, ByteOrder::LSBFirst).len() >= 40,
        o + 40 <= d.len(),
        d[o + 39] == sc.allowed_depths@.len(),
        depths_from(d, o + 40, sc.allowed_depths@.len()) == (
            sc.allowed_depths@.map_values(|dp: Depth| depth_view(dp)),
            o + screen_bytes(sc, ByteOrder::LSBFirst).len(),
        ),
        screen_at(d, o, sc.allowed_depths@.map_values(|dp: Depth| depth_view(dp)))
            == screen_view(sc),
{
    let l = ByteOrder::LSBFirst;
    let b = screen_bytes(sc, l);
    reveal(screen_bytes);
    let h = screen_header(sc, l);
    assert(b == h + depths_bytes(sc.allowed_depths@, l));
    let views = sc.allowed_depths@.map_values(|dp: Depth| depth_view(dp));
    lemma_part_at(d, o, b, 0, 40);
    assert(b.subrange(0, 40) =~= h);
    lemma_screen_header_read(d, o, sc, views);
    let m = b.len() as int;
    lemma_part_at(d, o, b, 40, m - 40);
    assert(b.subrange(40, m) =~= depths_bytes(sc.allowed_depths@, l));
    lemma_depths_read(d, o + 40, sc.allowed_depths@);
}

/// Whether the counts of each screen fit their fields (see `screen_fits`).
pub open spec fn screens_fit(ss: Seq<Screen>) -> bool {
    forall|j: int| 0 <= j < ss.len() ==> screen_fits(#[trigger] ss[j])
}

/// Screens written one after another from `o` read back, and reading stops after
/// them.
proof fn lemma_screens_read(d: Seq<u8>, o: int, ss: Seq<Screen>)
    requires
        0 <= o,
        o + screens_bytes(ss, ByteOrder::LSBFirst).len() <= d.len(),
        d.subrange(o, o + screens_bytes(ss, ByteOrder::LSBFirst).len()) == screens_bytes(
            ss,
            ByteOrder::LSBFirst,
        ),
        screens_fit(ss),
    ensures
        screens_from(d, o, ss.len()) == (
            ss.map_values(|sc: Screen| screen_view(sc)),
            o + screens_bytes(ss, ByteOrder::LSBFirst).len(),
        ),
        ss.len() > 0 ==> screens_bytes(ss, ByteOrder::LSBFirst).len() >= 40,
    decreases ss.len(),
{
    if ss.len() > 0 {
        let l = ByteOrder::LSBFirst;
        let init = ss.drop_last();
        let last = ss.last();
        let b = screens_bytes(ss, l);
        let n0 = screens_bytes(init, l).len() as int;
        assert(b == screens_bytes(init, l) + screen_bytes(last, l));
        lemma_part_at(d, o, b, 0, n0);
        assert(b.subrange(0, n0) =~= screens_bytes(init, l));
        assert(screens_fit(init)) by {
            assert forall|j: int| 0 <= j < init.len() implies screen_fits(#[trigger] init[j]) by {
                assert(init[j] == ss[j]);
            }
        }
        lemma_screens_read(d, o, init);
        let m = screen_bytes(last, l).len() as int;
        lemma_part_at(d, o, b, n0, m);
        assert(b.subrange(n0, n0 + m) =~= screen_bytes(last, l));
        assert(screen_fits(ss[ss.len() - 1]));
        lemma_screen_read(d, o + n0, last);
        assert(ss.map_values(|sc: Screen| screen_view(sc)) =~= init.map_values(
            |sc: Screen| screen_view(sc),
        ).push(screen_view(last)));
    }
}

/// Whether a setup reply reads back in full: the vendor string's length fits its
/// 16-bit field, the numbers of pixmap formats and of screens their bytes, the counts
/// of each screen theirs (see `screen_fits`), and at least one byte follows the
/// vendor string (padding, a format or a screen).
pub open spec fn setup_fits(s: SetupSuccess) -> bool {
    let vendor_len = encode_utf8(s.vendor@).len() as int;
    &&& vendor_len <= u16::MAX
    &&& s.pixmap_formats@.len() <= u8::MAX
    &&& s.roots@.len() <= u8::MAX
    &&& screens_fit(s.roots@)
    &&& (spec_pad(vendor_len) > 0 || s.pixmap_formats@.len() > 0 || s.roots@.len() > 0)
}

/// What the server sends as its setup reply, least significant byte first, the X
/// server backend reads back: the protocol version from the first 8 bytes, and from
/// the rest every field, every pixmap format, and every screen with its depths and
/// their visual types, and the vendor string.
/// The reply is long enough for the backend to read.
pub proof fn lemma_setup_reply_reads_back(s: SetupSuccess, t: SetupSuccess)
    requires
        setup_fits(s),
        setup_read_from(
            success_bytes(s, ByteOrder::LSBFirst).take(8),
            success_bytes(s, ByteOrder::LSBFirst).skip(8),
            t,
        ),
    ensures
        success_bytes(s, ByteOrder::LSBFirst).len() >= 40,
        t.protocol_major_version == s.protocol_major_version,
        t.protocol_minor_version == s.protocol_minor_version,
        t.release_number == s.release_number,
        t.resource_id_base == s.resource_id_base,
        t.resource_id_mask == s.resource_id_mask,
        t.motion_buffer_size == s.motion_buffer_size,
        t.maximum_request_length == s.maximum_request_length,
        t.image_byte_order == s.image_byte_order,
        t.bitmap_format_bit_order == s.bitmap_format_bit_order,
        t.bitmap_format_scanline_unit == s.bitmap_format_scanline_unit,
        t.bitmap_format_scanline_pad == s.bitmap_format_scanline_pad,
        t.min_keycode == s.min_keycode,
        t.max_keycode == s.max_keycode,
        t.vendor@ == s.vendor@,
        t.pixmap_formats@ == s.pixmap_formats@,
        t.roots@.map_values(|sc: Screen| screen_view(sc)) == s.roots@.map_values(
            |sc: Screen| screen_view(sc),
        ),
{
    let l = ByteOrder::LSBFirst;
    let b = success_bytes(s, l);
    let tail = success_tail(s, l);
    let f = success_fixed(s, l);
    let vendor = encode_utf8(s.vendor@);
    let vlen = vendor.len() as int;
    let fb = formats_bytes(s.pixmap_formats@);
    let sb = screens_bytes(s.roots@, l);
    let header = b.take(8);
    let d = b.skip(8);
    assert(d =~= tail);
    assert(tail == f + vendor + zeros(spec_pad(vlen) as nat) + fb + sb);
    assert(f.len() == 32);

    // The protocol version
    assert(header.subrange(2, 4) =~= u16_bytes(l, s.protocol_major_version));
    lemma_le16_at(header, 2, s.protocol_major_version);
    assert(header.subrange(4, 6) =~= u16_bytes(l, s.protocol_minor_version));
    lemma_le16_at(header, 4, s.protocol_minor_version);

    // The fixed part
    assert(d.subrange(0, 32) =~= f);
    assert(f.subrange(0, 4) =~= u32_bytes(l, s.release_number));
    lemma_u32_field(d, 0, f, 0, s.release_number);
    assert(f.subrange(4, 8) =~= u32_bytes(l, s.resource_id_base));
    lemma_u32_field(d, 0, f, 4, s.resource_id_base);
    assert(f.subrange(8, 12) =~= u32_bytes(l, s.resource_id_mask));
    lemma_u32_field(d, 0, f, 8, s.resource_id_mask);
    assert(f.subrange(12, 16) =~= u32_bytes(l, s.motion_buffer_size));
    lemma_u32_field(d, 0, f, 12, s.motion_buffer_size);
    assert(f.subrange(16, 18) =~= u16_bytes(l, vlen as u16));
    lemma_u16_field(d, 0, f, 16, vlen as u16);
    assert(f.subrange(18, 20) =~= u16_bytes(l, s.maximum_request_length));
    lemma_u16_field(d, 0, f, 18, s.maximum_request_length);
    assert(d[20] == f[20] && d[21] == f[21] && d[22] == f[22] && d[23] == f[23]);
    assert(d[24] == f[24] && d[25] == f[25] && d[26] == f[26] && d[27] == f[27]);

    // The vendor string, whose UTF-8 bytes decode to it
    vstd::utf8::encode_utf8_valid_utf8(s.vendor@);
    vstd::utf8::encode_utf8_decode_utf8(s.vendor@);
    assert(d.subrange(32, 32 + vlen) =~= vendor);

    // The pixmap formats
    let fs0 = 32 + vlen + spec_pad(vlen);
    assert(d.subrange(fs0, fs0 + fb.len()) =~= fb);
    lemma_formats_read(d, fs0, s.pixmap_formats@);

    // The screens
    let ss0 = fs0 + fb.len();
    assert(d.subrange(ss0, ss0 + sb.len()) =~= sb);
    lemma_screens_read(d, ss0, s.roots@);
}

/// The STRs of some names are the first name's STR followed by those of the rest.
proof fn lemma_str_entries_front(ns: Seq<Seq<u8>>)
    requires
        ns.len() > 0,
    ensures
        str_entries(ns) == str_entry(ns[0]) + str_entries(ns.skip(1)),
    decreases ns.len(),
{
    if ns.len() == 1 {
        assert(ns.skip(1) =~= Seq::<Seq<u8>>::empty());
        assert(ns.drop_last() =~= Seq::<Seq<u8>>::empty());
        assert(str_entries(ns) =~= str_entry(ns[0]) + str_entries(ns.skip(1)));
    } else {
        let init = ns.drop_last();
        lemma_str_entries_front(init);
        assert(init[0] == ns[0]);
        assert(ns.skip(1).drop_last() =~= init.skip(1));
        assert(ns.skip(1).last() == ns.last());
        assert(str_entries(ns) =~= str_entry(ns[0]) + str_entries(ns.skip(1)));
    }
}

/// A name as a STR holds it: cut to 255 bytes, the most that its length byte counts.
pub open spec fn str_name(name: Seq<u8>) -> Seq<u8> {
    if name.len() < 255 {
        name
    } else {
        name.take(255)
    }
}

/// STRs written one after another from `o` read back as the names they hold.
proof fn lemma_str_entries_read(d: Seq<u8>, o: int, ns: Seq<Seq<u8>>)
    requires
        0 <= o,
        o + str_entries(ns).len() <= d.len(),
        d.subrange(o, o + str_entries(ns).len()) == str_entries(ns),
    ensures
        font_names_from(d, o, ns.len()) == ns.map_values(|n: Seq<u8>| str_name(n)),
    decreases ns.len(),
{
    if ns.len() > 0 {
        lemma_str_entries_front(ns);
        let e = str_entry(ns[0]);
        let rest = str_entries(ns.skip(1));
        let b = str_entries(ns);
        let m = e.len() as int;
        assert(d[o] == b[0]);
        lemma_part_at(d, o, b, 1, m - 1);
        assert(b.subrange(1, m) =~= str_name(ns[0]));
        lemma_part_at(d, o, b, m, rest.len() as int);
        assert(b.subrange(m, m + rest.len()) =~= rest);
        lemma_str_entries_read(d, o + m, ns.skip(1));
        assert(ns.map_values(|n: Seq<u8>| str_name(n)) =~= seq![str_name(ns[0])] + ns.skip(
            1,
        ).map_values(|n: Seq<u8>| str_name(n)));
    }
}

/// The font names that the server lists in a ListFonts reply, least significant
/// byte first, the X server backend reads back, each cut to the 255 bytes that a
/// name can hold, when their number fits the reply's 16-bit count: the reply holds
/// its 32-byte header, the count, and from byte 32 on the names.
pub proof fn lemma_font_list_reads_back(sequence: u16, names: Seq<String>)
    requires
        names.len() <= u16::MAX,
    ensures
        list_fonts_reply_bytes(ByteOrder::LSBFirst, sequence, names).len() >= 32,
        le16(list_fonts_reply_bytes(ByteOrder::LSBFirst, sequence, names), 8) == names.len(),
        font_names_from(list_fonts_reply_bytes(ByteOrder::LSBFirst, sequence, names), 32, names.len())
            == names_bytes(names).map_values(|n: Seq<u8>| str_name(n)),
{
    let l = ByteOrder::LSBFirst;
    let b = list_fonts_reply_bytes(l, sequence, names);
    let data = str_list(names);
    let entries = str_entries(names_bytes(names));
    let h = reply_header(l, 0, sequence, (data.len() / 4) as u32);
    assert(h.len() == 8);
    assert(b == h + u16_bytes(l, names.len() as u16) + zeros(22) + data);
    assert(b.subrange(8, 10) =~= u16_bytes(l, names.len() as u16));
    lemma_le16_at(b, 8, names.len() as u16);
    assert(b.subrange(32, 32 + entries.len() as int) =~= entries);
    lemma_str_entries_read(b, 32, names_bytes(names));
}

} // verus!
