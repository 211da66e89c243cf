//! X11 reply and event encoder
//!
//! This module encodes replies and events to the wire protocol. Every reply starts
//! with the same eight bytes (`reply_header`); the spec function of each reply says
//! which bytes follow.
use vstd::prelude::*;
use vstd::utf8::encode_utf8;
use super::{pad, padded_len, spec_pad};
use super::events::{lemma_event_encodes_as_inner, Event, ExposeEvent, MapNotifyEvent};
use super::types::{Atom, BackingStore, ByteOrder, Colormap, MapState, VisualID, Window, WindowClass};
use super::wire::{
    group_wire_lengths, i16_at, i16_bytes, lemma_i16_read, lemma_u16_read, lemma_u16_roundtrip,
    lemma_u32_read, lemma_u32_roundtrip, push_bytes, push_zeros, u16_at, u16_bytes, u32_at,
    u32_bytes, zeros,
};

verus! {

/// The byte that stands for a boolean on the wire.
pub open spec fn bool_byte(b: bool) -> u8 {
    if b {
        1
    } else {
        0
    }
}

/// The first eight bytes of a reply: the reply marker 1, one byte of reply data,
/// the sequence number, and the length of what follows the first 32 bytes, in
/// 4-byte units.
pub open spec fn reply_header(order: ByteOrder, data: u8, sequence: u16, length: u32) -> Seq<u8> {
    seq![1u8, data] + u16_bytes(order, sequence) + u32_bytes(order, length)
}

/// The identifiers of `windows`, each as four bytes in `order`.
pub open spec fn windows_bytes(order: ByteOrder, windows: Seq<Window>) -> Seq<u8>
    decreases windows.len(),
{
    if windows.len() == 0 {
        Seq::empty()
    } else {
        windows_bytes(order, windows.drop_last()) + u32_bytes(order, windows.last().0.0)
    }
}

/// GetWindowAttributes reply: 44 bytes, three 4-byte units after the first 32.
pub open spec fn get_window_attributes_reply_bytes(
    order: ByteOrder,
    sequence: u16,
    visual: VisualID,
    class: WindowClass,
    bit_gravity: u8,
    backing_store: BackingStore,
    backing_planes: u32,
    backing_pixel: u32,
    save_under: bool,
    map_is_installed: bool,
    map_state: MapState,
    override_redirect: bool,
    colormap: Colormap,
    all_event_masks: u32,
    your_event_mask: u32,
    do_not_propagate_mask: u16,
) -> Seq<u8> {
    reply_header(order, backing_store.spec_code(), sequence, 3) + u32_bytes(order, visual.0)
        + u16_bytes(order, class.spec_code()) + seq![bit_gravity, backing_store.spec_code()]
        + u32_bytes(order, backing_planes) + u32_bytes(order, backing_pixel) + seq![
        bool_byte(save_under),
        bool_byte(map_is_installed),
        map_state.spec_code(),
        bool_byte(override_redirect),
    ] + u32_bytes(order, colormap.0.0) + u32_bytes(order, all_event_masks) + u32_bytes(
        order,
        your_event_mask,
    ) + u16_bytes(order, do_not_propagate_mask) + zeros(2)
}

/// GetGeometry reply: 32 bytes.
pub open spec fn get_geometry_reply_bytes(
    order: ByteOrder,
    sequence: u16,
    depth: u8,
    root: Window,
    x: i16,
    y: i16,
    width: u16,
    height: u16,
    border_width: u16,
) -> Seq<u8> {
    reply_header(order, depth, sequence, 0) + u32_bytes(order, root.0.0) + i16_bytes(order, x)
        + i16_bytes(order, y) + u16_bytes(order, width) + u16_bytes(order, height) + u16_bytes(
        order,
        border_width,
    ) + zeros(10)
}

/// QueryTree reply: 32 bytes, then the children's identifiers.
pub open spec fn query_tree_reply_bytes(
    order: ByteOrder,
    sequence: u16,
    root: Window,
    parent: Window,
    children: Seq<Window>,
) -> Seq<u8> {
    reply_header(order, 0, sequence, children.len() as u32) + u32_bytes(order, root.0.0)
        + u32_bytes(order, parent.0.0) + u16_bytes(order, children.len() as u16) + zeros(14)
        + windows_bytes(order, children)
}

/// InternAtom reply: 32 bytes.
pub open spec fn intern_atom_reply_bytes(order: ByteOrder, sequence: u16, atom: Atom) -> Seq<u8> {
    reply_header(order, 0, sequence, 0) + u32_bytes(order, atom.0) + zeros(20)
}

/// GetAtomName reply: 32 bytes, then the name padded to a multiple of four.
pub open spec fn get_atom_name_reply_bytes(order: ByteOrder, sequence: u16, name: Seq<u8>) -> Seq<
    u8,
> {
    reply_header(order, 0, sequence, ((name.len() + spec_pad(name.len() as int)) / 4) as u32)
        + u16_bytes(order, name.len() as u16) + zeros(22) + name + zeros(
        spec_pad(name.len() as int) as nat,
    )
}

/// The number of items in a property value of `len` bytes in `format`; 0 for a
/// format other than 8, 16 or 32.
pub open spec fn property_value_len(format: u8, len: nat) -> u32 {
    if format == 8 {
        len as u32
    } else if format == 16 {
        (len / 2) as u32
    } else if format == 32 {
        (len / 4) as u32
    } else {
        0
    }
}

/// GetProperty reply: 32 bytes, then the value padded to a multiple of four.
pub open spec fn get_property_reply_bytes(
    order: ByteOrder,
    sequence: u16,
    format: u8,
    type_: Atom,
    bytes_after: u32,
    value: Seq<u8>,
) -> Seq<u8> {
    reply_header(order, format, sequence, ((value.len()
        + spec_pad(value.len() as int)) / 4) as u32)
        + u32_bytes(order, type_.0) + u32_bytes(order, bytes_after) + u32_bytes(
        order,
        property_value_len(format, value.len()),
    ) + zeros(12) + value + zeros(spec_pad(value.len() as int) as nat)
}

/// QueryExtension reply: 32 bytes.
pub open spec fn query_extension_reply_bytes(
    order: ByteOrder,
    sequence: u16,
    present: bool,
    major_opcode: u8,
    first_event: u8,
    first_error: u8,
) -> Seq<u8> {
    reply_header(order, 0, sequence, 0) + seq![
        bool_byte(present),
        major_opcode,
        first_event,
        first_error,
    ] + zeros(20)
}

/// GetInputFocus reply: 32 bytes.
pub open spec fn get_input_focus_reply_bytes(
    order: ByteOrder,
    sequence: u16,
    focus: Window,
    revert_to: u8,
) -> Seq<u8> {
    reply_header(order, revert_to, sequence, 0) + u32_bytes(order, focus.0.0) + zeros(20)
}

/// AllocColor reply: 32 bytes.
pub open spec fn alloc_color_reply_bytes(
    order: ByteOrder,
    sequence: u16,
    pixel: u32,
    red: u16,
    green: u16,
    blue: u16,
) -> Seq<u8> {
    reply_header(order, 0, sequence, 0) + u16_bytes(order, red) + u16_bytes(order, green)
        + u16_bytes(order, blue) + zeros(2) + u32_bytes(order, pixel) + zeros(12)
}

/// AllocNamedColor reply: 32 bytes.
pub open spec fn alloc_named_color_reply_bytes(
    order: ByteOrder,
    sequence: u16,
    pixel: u32,
    exact_red: u16,
    exact_green: u16,
    exact_blue: u16,
    visual_red: u16,
    visual_green: u16,
    visual_blue: u16,
) -> Seq<u8> {
    reply_header(order, 0, sequence, 0) + u32_bytes(order, pixel) + u16_bytes(order, exact_red)
        + u16_bytes(order, exact_green) + u16_bytes(order, exact_blue) + u16_bytes(
        order,
        visual_red,
    ) + u16_bytes(order, visual_green) + u16_bytes(order, visual_blue) + zeros(8)
}

/// The CHARINFO of the largest character of a font of one character size.
pub open spec fn max_bounds_bytes(
    order: ByteOrder,
    font_ascent: i16,
    font_descent: i16,
    char_width: i16,
) -> Seq<u8> {
    i16_bytes(order, 0) + i16_bytes(order, char_width) + i16_bytes(order, char_width) + i16_bytes(
        order,
        font_ascent,
    ) + i16_bytes(order, font_descent) + u16_bytes(order, 0)
}

/// QueryFont reply with no font properties and no per-character information: 60
/// bytes, seven 4-byte units after the first 32.
pub open spec fn query_font_reply_bytes(
    order: ByteOrder,
    sequence: u16,
    font_ascent: i16,
    font_descent: i16,
    char_width: i16,
) -> Seq<u8> {
    reply_header(order, 0, sequence, 7) + zeros(16) + max_bounds_bytes(
        order,
        font_ascent,
        font_descent,
        char_width,
    ) + zeros(4) + u16_bytes(order, 0) + u16_bytes(order, 255) + u16_bytes(order, 0) + u16_bytes(
        order,
        0,
    ) + seq![0u8, 0u8, 0u8, 1u8] + i16_bytes(order, font_ascent) + i16_bytes(order, font_descent)
        + u32_bytes(order, 0)
}

/// A reply with nothing in it but its sequence number: 32 bytes.
pub open spec fn void_reply_bytes(order: ByteOrder, sequence: u16) -> Seq<u8> {
    reply_header(order, 0, sequence, 0) + zeros(24)
}

/// One STR of a reply: its length, at most 255, in a byte, then as many bytes of
/// the name.
pub open spec fn str_entry(name: Seq<u8>) -> Seq<u8> {
    let n = if name.len() < 255 {
        name.len()
    } else {
        255
    };
    seq![n as u8] + name.take(n as int)
}

/// The STRs of `names`, one after the other.
pub open spec fn str_entries(names: Seq<Seq<u8>>) -> Seq<u8>
    decreases names.len(),
{
    if names.len() == 0 {
        Seq::empty()
    } else {
        str_entries(names.drop_last()) + str_entry(names.last())
    }
}

/// The UTF-8 bytes of each string of `names`.
pub open spec fn names_bytes(names: Seq<String>) -> Seq<Seq<u8>> {
    names.map_values(|s: String| encode_utf8(s@))
}

/// A LISTofSTR of `names`, padded to a multiple of four bytes.
pub open spec fn str_list(names: Seq<String>) -> Seq<u8> {
    let data = str_entries(names_bytes(names));
    data + zeros(spec_pad(data.len() as int) as nat)
}

/// ListFonts reply: 32 bytes, then the names.
pub open spec fn list_fonts_reply_bytes(order: ByteOrder, sequence: u16, font_names: Seq<String>) -> Seq<
    u8,
> {
    let data = str_list(font_names);
    reply_header(order, 0, sequence, (data.len() / 4) as u32) + u16_bytes(
        order,
        font_names.len() as u16,
    ) + zeros(22) + data
}

/// ListExtensions reply: 32 bytes, then the names.
pub open spec fn list_extensions_reply_bytes(
    order: ByteOrder,
    sequence: u16,
    extension_names: Seq<String>,
) -> Seq<u8> {
    let data = str_list(extension_names);
    reply_header(order, extension_names.len() as u8, sequence, (data.len() / 4) as u32) + zeros(24)
        + data
}

/// QueryPointer reply: 32 bytes.
pub open spec fn query_pointer_reply_bytes(
    order: ByteOrder,
    sequence: u16,
    same_screen: bool,
    root: Window,
    child: Window,
    root_x: i16,
    root_y: i16,
    win_x: i16,
    win_y: i16,
    mask: u16,
) -> Seq<u8> {
    reply_header(order, bool_byte(same_screen), sequence, 0) + u32_bytes(order, root.0.0)
        + u32_bytes(order, child.0.0) + i16_bytes(order, root_x) + i16_bytes(order, root_y)
        + i16_bytes(order, win_x) + i16_bytes(order, win_y) + u16_bytes(order, mask) + zeros(6)
}

/// TranslateCoordinates reply: 32 bytes.
pub open spec fn translate_coordinates_reply_bytes(
    order: ByteOrder,
    sequence: u16,
    same_screen: bool,
    child: Window,
    dst_x: i16,
    dst_y: i16,
) -> Seq<u8> {
    reply_header(order, bool_byte(same_screen), sequence, 0) + u32_bytes(order, child.0.0)
        + i16_bytes(order, dst_x) + i16_bytes(order, dst_y) + zeros(16)
}

/// QueryKeymap reply: 40 bytes, two 4-byte units after the first 32.
pub open spec fn query_keymap_reply_bytes(order: ByteOrder, sequence: u16, keys: Seq<u8>) -> Seq<
    u8,
> {
    reply_header(order, 0, sequence, 2) + keys
}

/// GrabPointer and GrabKeyboard reply: 32 bytes with the grab status in the data byte.
pub open spec fn grab_reply_bytes(order: ByteOrder, sequence: u16, status: u8) -> Seq<u8> {
    reply_header(order, status, sequence, 0) + zeros(24)
}

/// GetScreenSaver reply: 32 bytes.
pub open spec fn get_screen_saver_reply_bytes(
    order: ByteOrder,
    sequence: u16,
    timeout: u16,
    interval: u16,
    prefer_blanking: u8,
    allow_exposures: u8,
) -> Seq<u8> {
    reply_header(order, 0, sequence, 0) + u16_bytes(order, timeout) + u16_bytes(order, interval)
        + seq![prefer_blanking, allow_exposures] + zeros(18)
}

/// An Expose event as the encoder sends it: 32 bytes.
pub open spec fn expose_event_bytes(
    order: ByteOrder,
    sequence: u16,
    window: Window,
    x: u16,
    y: u16,
    width: u16,
    height: u16,
    count: u16,
) -> Seq<u8> {
    Event::Expose(ExposeEvent { sequence, window, x, y, width, height, count }).spec_encoded(
        32,
        order,
    )
}

/// A MapNotify event as the encoder sends it: 32 bytes.
pub open spec fn map_notify_event_bytes(
    order: ByteOrder,
    sequence: u16,
    event: Window,
    window: Window,
    override_redirect: bool,
) -> Seq<u8> {
    Event::MapNotify(MapNotifyEvent { sequence, event, window, override_redirect }).spec_encoded(
        32,
        order,
    )
}

/// The encoder's events are the events' own encodings: an Expose or MapNotify event
/// that the encoder sends is, byte for byte, the 32 bytes that the event writes into
/// a cleared buffer in the same byte order.
pub proof fn lemma_encoder_events_as_events(
    order: ByteOrder,
    sequence: u16,
    window: Window,
    x: u16,
    y: u16,
    width: u16,
    height: u16,
    count: u16,
    event: Window,
    override_redirect: bool,
)
    ensures
        expose_event_bytes(order, sequence, window, x, y, width, height, count) == (ExposeEvent {
            sequence,
            window,
            x,
            y,
            width,
            height,
            count,
        }).spec_written(zeros(32), order),
        map_notify_event_bytes(order, sequence, event, window, override_redirect) == (MapNotifyEvent {
            sequence,
            event,
            window,
            override_redirect,
        }).spec_written(zeros(32), order),
{
    lemma_event_encodes_as_inner(
        Event::Expose(ExposeEvent { sequence, window, x, y, width, height, count }),
        32,
        order,
    );
    lemma_event_encodes_as_inner(
        Event::MapNotify(MapNotifyEvent { sequence, event, window, override_redirect }),
        32,
        order,
    );
}

/// A reply as a client reads it: at least 32 bytes, the reply marker first, the
/// sequence number at offset 2, and a length field at offset 4 that counts the
/// 4-byte units after the first 32.
pub open spec fn framed_reply(order: ByteOrder, bytes: Seq<u8>, sequence: u16) -> bool {
    &&& bytes.len() >= 32
    &&& bytes[0] == 1
    &&& u16_at(order, bytes, 2) == sequence
    &&& bytes.len() == 32 + 4 * u32_at(order, bytes, 4)
}

/// A GetWindowAttributes reply carries each attribute at its offset in the X11
/// protocol: the backing store in the data byte, the sequence number at 2, the length 3
/// at 4, the visual at 8, the class at 12, bit gravity and backing store at 14 and 15,
/// backing planes and pixel at 16 and 20, the four flags and the map state at 24 to 27,
/// the colormap at 28, all event masks at 32, the client's event mask at 36 and the
/// do-not-propagate mask at 40.
pub proof fn lemma_get_window_attributes_reply_layout(
    order: ByteOrder,
    sequence: u16,
    visual: VisualID,
    class: WindowClass,
    bit_gravity: u8,
    backing_store: BackingStore,
    backing_planes: u32,
    backing_pixel: u32,
    save_under: bool,
    map_is_installed: bool,
    map_state: MapState,
    override_redirect: bool,
    colormap: Colormap,
    all_event_masks: u32,
    your_event_mask: u32,
    do_not_propagate_mask: u16,
)
    ensures
        ({
            let r = get_window_attributes_reply_bytes(
                order, sequence, visual, class, bit_gravity, backing_store, backing_planes,
                backing_pixel, save_under, map_is_installed, map_state, override_redirect,
                colormap, all_event_masks, your_event_mask, do_not_propagate_mask,
            );
            &&& r.len() == 44
            &&& r[0] == 1
            &&& r[1] == backing_store.spec_code()
            &&& u16_at(order, r, 2) == sequence
            &&& u32_at(order, r, 4) == 3
            &&& u32_at(order, r, 8) == visual.0
            &&& u16_at(order, r, 12) == class.spec_code()
            &&& r[14] == bit_gravity
            &&& r[15] == backing_store.spec_code()
            &&& u32_at(order, r, 16) == backing_planes
            &&& u32_at(order, r, 20) == backing_pixel
            &&& r[24] == (if save_under { 1u8 } else { 0u8 })
            &&& r[25] == (if map_is_installed { 1u8 } else { 0u8 })
            &&& r[26] == map_state.spec_code()
            &&& r[27] == (if override_redirect { 1u8 } else { 0u8 })
            &&& u32_at(order, r, 28) == colormap.0.0
            &&& u32_at(order, r, 32) == all_event_masks
            &&& u32_at(order, r, 36) == your_event_mask
            &&& u16_at(order, r, 40) == do_not_propagate_mask
        }),
{
    broadcast use group_wire_lengths;

    let r = get_window_attributes_reply_bytes(
                order, sequence, visual, class, bit_gravity, backing_store, backing_planes,
                backing_pixel, save_under, map_is_installed, map_state, override_redirect,
                colormap, all_event_masks, your_event_mask, do_not_propagate_mask,
            );
    assert(r[0] == 1);
    assert(r[1] == backing_store.spec_code());
    assert(r.subrange(2, 4) =~= u16_bytes(order, sequence));
    lemma_u16_read(order, r, 2, sequence);
    assert(r.subrange(4, 8) =~= u32_bytes(order, 3));
    lemma_u32_read(order, r, 4, 3);
    assert(r.subrange(8, 12) =~= u32_bytes(order, visual.0));
    lemma_u32_read(order, r, 8, visual.0);
    assert(r.subrange(12, 14) =~= u16_bytes(order, class.spec_code()));
    lemma_u16_read(order, r, 12, class.spec_code());
    assert(r[14] == bit_gravity);
    assert(r[15] == backing_store.spec_code());
    assert(r.subrange(16, 20) =~= u32_bytes(order, backing_planes));
    lemma_u32_read(order, r, 16, backing_planes);
    assert(r.subrange(20, 24) =~= u32_bytes(order, backing_pixel));
    lemma_u32_read(order, r, 20, backing_pixel);
    assert(r[24] == (if save_under { 1u8 } else { 0u8 }));
    assert(r[25] == (if map_is_installed { 1u8 } else { 0u8 }));
    assert(r[26] == map_state.spec_code());
    assert(r[27] == (if override_redirect { 1u8 } else { 0u8 }));
    assert(r.subrange(28, 32) =~= u32_bytes(order, colormap.0.0));
    lemma_u32_read(order, r, 28, colormap.0.0);
    assert(r.subrange(32, 36) =~= u32_bytes(order, all_event_masks));
    lemma_u32_read(order, r, 32, all_event_masks);
    assert(r.subrange(36, 40) =~= u32_bytes(order, your_event_mask));
    lemma_u32_read(order, r, 36, your_event_mask);
    assert(r.subrange(40, 42) =~= u16_bytes(order, do_not_propagate_mask));
    lemma_u16_read(order, r, 40, do_not_propagate_mask);
}

/// The identifiers of `windows` take four bytes each, the one of each window at four
/// times its position.
pub proof fn lemma_windows_bytes_layout(order: ByteOrder, windows: Seq<Window>)
    ensures
        windows_bytes(order, windows).len() == 4 * windows.len(),
        forall|i: int|
            0 <= i < windows.len() ==> windows_bytes(order, windows).subrange(4 * i, 4 * i + 4)
                == u32_bytes(order, (#[trigger] windows[i]).0.0),
    decreases windows.len(),
{
    broadcast use group_wire_lengths;

    if windows.len() > 0 {
        let init = windows.drop_last();
        lemma_windows_bytes_layout(order, init);
        let w = windows_bytes(order, windows);
        assert forall|i: int| 0 <= i < windows.len() implies w.subrange(4 * i, 4 * i + 4)
            == u32_bytes(order, (#[trigger] windows[i]).0.0) by {
            if i < init.len() {
                assert(w.subrange(4 * i, 4 * i + 4) =~= windows_bytes(order, init).subrange(
                    4 * i,
                    4 * i + 4,
                ));
                assert(windows[i] == init[i]);
            } else {
                assert(w.subrange(4 * i, 4 * i + 4) =~= u32_bytes(order, windows.last().0.0));
            }
        }
    }
}

/// A GetGeometry reply carries the depth in the data byte, the sequence number at 2,
/// no extra length, the root at 8, x and y at 12 and 14, width and height at 16 and 18
/// and the border width at 20.
pub proof fn lemma_get_geometry_reply_layout(
    order: ByteOrder,
    sequence: u16,
    depth: u8,
    root: Window,
    x: i16,
    y: i16,
    width: u16,
    height: u16,
    border_width: u16,
)
    ensures
        ({
            let r = get_geometry_reply_bytes(order, sequence, depth, root, x, y, width, height, border_width);
            &&& r.len() == 32
            &&& r[0] == 1
            &&& r[1] == depth
            &&& u16_at(order, r, 2) == sequence
            &&& u32_at(order, r, 4) == 0
            &&& u32_at(order, r, 8) == root.0.0
            &&& i16_at(order, r, 12) == x
            &&& i16_at(order, r, 14) == y
            &&& u16_at(order, r, 16) == width
            &&& u16_at(order, r, 18) == height
            &&& u16_at(order, r, 20) == border_width
        }),
{
    broadcast use group_wire_lengths;

    let r = get_geometry_reply_bytes(order, sequence, depth, root, x, y, width, height, border_width);
    assert(r[0] == 1);
    assert(r[1] == depth);
    assert(r.subrange(2, 4) =~= u16_bytes(order, sequence));
    lemma_u16_read(order, r, 2, sequence);
    assert(r.subrange(4, 8) =~= u32_bytes(order, 0));
    lemma_u32_read(order, r, 4, 0);
    assert(r.subrange(8, 12) =~= u32_bytes(order, root.0.0));
    lemma_u32_read(order, r, 8, root.0.0);
    assert(r.subrange(12, 14) =~= i16_bytes(order, x));
    lemma_i16_read(order, r, 12, x);
    assert(r.subrange(14, 16) =~= i16_bytes(order, y));
    lemma_i16_read(order, r, 14, y);
    assert(r.subrange(16, 18) =~= u16_bytes(order, width));
    lemma_u16_read(order, r, 16, width);
    assert(r.subrange(18, 20) =~= u16_bytes(order, height));
    lemma_u16_read(order, r, 18, height);
    assert(r.subrange(20, 22) =~= u16_bytes(order, border_width));
    lemma_u16_read(order, r, 20, border_width);
}

/// A QueryTree reply carries the sequence number at 2, as many 4-byte units after the
/// first 32 as there are children, the root at 8, the parent at 12, the number of
/// children at 16, and each child's identifier in turn from offset 32 on.
pub proof fn lemma_query_tree_reply_layout(
    order: ByteOrder,
    sequence: u16,
    root: Window,
    parent: Window,
    children: Seq<Window>,
)
    ensures
        ({
            let r = query_tree_reply_bytes(order, sequence, root, parent, children);
            &&& r[0] == 1
            &&& u16_at(order, r, 2) == sequence
            &&& u32_at(order, r, 4) == children.len() as u32
            &&& u32_at(order, r, 8) == root.0.0
            &&& u32_at(order, r, 12) == parent.0.0
            &&& u16_at(order, r, 16) == children.len() as u16
            &&& r.len() == 32 + 4 * children.len()
            &&& forall|i: int| 0 <= i < children.len() ==> u32_at(order, r, 32
                + 4 * i) == (#[trigger] children[i]).0.0
        }),
{
    broadcast use group_wire_lengths;

    let r = query_tree_reply_bytes(order, sequence, root, parent, children);
    assert(r[0] == 1);
    assert(r.subrange(2, 4) =~= u16_bytes(order, sequence));
    lemma_u16_read(order, r, 2, sequence);
    assert(r.subrange(4, 8) =~= u32_bytes(order, children.len() as u32));
    lemma_u32_read(order, r, 4, children.len() as u32);
    assert(r.subrange(8, 12) =~= u32_bytes(order, root.0.0));
    lemma_u32_read(order, r, 8, root.0.0);
    assert(r.subrange(12, 16) =~= u32_bytes(order, parent.0.0));
    lemma_u32_read(order, r, 12, parent.0.0);
    assert(r.subrange(16, 18) =~= u16_bytes(order, children.len() as u16));
    lemma_u16_read(order, r, 16, children.len() as u16);
    lemma_windows_bytes_layout(order, children);
    assert forall|i: int| 0 <= i < children.len() implies u32_at(order, r, 32
        + 4 * i) == (#[trigger] children[i]).0.0 by {
        let w = windows_bytes(order, children);
        assert(r.subrange(32 + 4 * i, 32 + 4 * i + 4) =~= w.subrange(4 * i, 4 * i + 4));
        lemma_u32_read(order, r, 32 + 4 * i, children[i].0.0);
    }
}

/// An InternAtom reply carries the sequence number at 2 and the atom at 8.
pub proof fn lemma_intern_atom_reply_layout(
    order: ByteOrder,
    sequence: u16,
    atom: Atom,
)
    ensures
        ({
            let r = intern_atom_reply_bytes(order, sequence, atom);
            &&& r.len() == 32
            &&& r[0] == 1
            &&& u16_at(order, r, 2) == sequence
            &&& u32_at(order, r, 4) == 0
            &&& u32_at(order, r, 8) == atom.0
        }),
{
    broadcast use group_wire_lengths;

    let r = intern_atom_reply_bytes(order, sequence, atom);
    assert(r[0] == 1);
    assert(r.subrange(2, 4) =~= u16_bytes(order, sequence));
    lemma_u16_read(order, r, 2, sequence);
    assert(r.subrange(4, 8) =~= u32_bytes(order, 0));
    lemma_u32_read(order, r, 4, 0);
    assert(r.subrange(8, 12) =~= u32_bytes(order, atom.0));
    lemma_u32_read(order, r, 8, atom.0);
}

/// A GetInputFocus reply carries the revert-to mode in the data byte, the sequence
/// number at 2 and the focus window at 8.
pub proof fn lemma_get_input_focus_reply_layout(
    order: ByteOrder,
    sequence: u16,
    focus: Window,
    revert_to: u8,
)
    ensures
        ({
            let r = get_input_focus_reply_bytes(order, sequence, focus, revert_to);
            &&& r.len() == 32
            &&& r[0] == 1
            &&& r[1] == revert_to
            &&& u16_at(order, r, 2) == sequence
            &&& u32_at(order, r, 4) == 0
            &&& u32_at(order, r, 8) == focus.0.0
        }),
{
    broadcast use group_wire_lengths;

    let r = get_input_focus_reply_bytes(order, sequence, focus, revert_to);
    assert(r[0] == 1);
    assert(r[1] == revert_to);
    assert(r.subrange(2, 4) =~= u16_bytes(order, sequence));
    lemma_u16_read(order, r, 2, sequence);
    assert(r.subrange(4, 8) =~= u32_bytes(order, 0));
    lemma_u32_read(order, r, 4, 0);
    assert(r.subrange(8, 12) =~= u32_bytes(order, focus.0.0));
    lemma_u32_read(order, r, 8, focus.0.0);
}

/// An AllocColor reply carries the sequence number at 2, red, green and blue at 8, 10
/// and 12, and the pixel at 16.
pub proof fn lemma_alloc_color_reply_layout(
    order: ByteOrder,
    sequence: u16,
    pixel: u32,
    red: u16,
    green: u16,
    blue: u16,
)
    ensures
        ({
            let r = alloc_color_reply_bytes(order, sequence, pixel, red, green, blue);
            &&& r.len() == 32
            &&& r[0] == 1
            &&& u16_at(order, r, 2) == sequence
            &&& u32_at(order, r, 4) == 0
            &&& u16_at(order, r, 8) == red
            &&& u16_at(order, r, 10) == green
            &&& u16_at(order, r, 12) == blue
            &&& u32_at(order, r, 16) == pixel
        }),
{
    broadcast use group_wire_lengths;

    let r = alloc_color_reply_bytes(order, sequence, pixel, red, green, blue);
    assert(r[0] == 1);
    assert(r.subrange(2, 4) =~= u16_bytes(order, sequence));
    lemma_u16_read(order, r, 2, sequence);
    assert(r.subrange(4, 8) =~= u32_bytes(order, 0));
    lemma_u32_read(order, r, 4, 0);
    assert(r.subrange(8, 10) =~= u16_bytes(order, red));
    lemma_u16_read(order, r, 8, red);
    assert(r.subrange(10, 12) =~= u16_bytes(order, green));
    lemma_u16_read(order, r, 10, green);
    assert(r.subrange(12, 14) =~= u16_bytes(order, blue));
    lemma_u16_read(order, r, 12, blue);
    assert(r.subrange(16, 20) =~= u32_bytes(order, pixel));
    lemma_u32_read(order, r, 16, pixel);
}

/// An AllocNamedColor reply carries the sequence number at 2, the pixel at 8, the
/// exact red, green and blue at 12, 14 and 16, and the visual ones at 18, 20 and 22.
pub proof fn lemma_alloc_named_color_reply_layout(
    order: ByteOrder,
    sequence: u16,
    pixel: u32,
    exact_red: u16,
    exact_green: u16,
    exact_blue: u16,
    visual_red: u16,
    visual_green: u16,
    visual_blue: u16,
)
    ensures
        ({
            let r = alloc_named_color_reply_bytes(
                order, sequence, pixel, exact_red, exact_green, exact_blue, visual_red,
                visual_green, visual_blue,
            );
            &&& r.len() == 32
            &&& r[0] == 1
            &&& u16_at(order, r, 2) == sequence
            &&& u32_at(order, r, 4) == 0
            &&& u32_at(order, r, 8) == pixel
            &&& u16_at(order, r, 12) == exact_red
            &&& u16_at(order, r, 14) == exact_green
            &&& u16_at(order, r, 16) == exact_blue
            &&& u16_at(order, r, 18) == visual_red
            &&& u16_at(order, r, 20) == visual_green
            &&& u16_at(order, r, 22) == visual_blue
        }),
{
    broadcast use group_wire_lengths;

    let r = alloc_named_color_reply_bytes(
                order, sequence, pixel, exact_red, exact_green, exact_blue, visual_red,
                visual_green, visual_blue,
            );
    assert(r[0] == 1);
    assert(r.subrange(2, 4) =~= u16_bytes(order, sequence));
    lemma_u16_read(order, r, 2, sequence);
    assert(r.subrange(4, 8) =~= u32_bytes(order, 0));
    lemma_u32_read(order, r, 4, 0);
    assert(r.subrange(8, 12) =~= u32_bytes(order, pixel));
    lemma_u32_read(order, r, 8, pixel);
    assert(r.subrange(12, 14) =~= u16_bytes(order, exact_red));
    lemma_u16_read(order, r, 12, exact_red);
    assert(r.subrange(14, 16) =~= u16_bytes(order, exact_green));
    lemma_u16_read(order, r, 14, exact_green);
    assert(r.subrange(16, 18) =~= u16_bytes(order, exact_blue));
    lemma_u16_read(order, r, 16, exact_blue);
    assert(r.subrange(18, 20) =~= u16_bytes(order, visual_red));
    lemma_u16_read(order, r, 18, visual_red);
    assert(r.subrange(20, 22) =~= u16_bytes(order, visual_green));
    lemma_u16_read(order, r, 20, visual_green);
    assert(r.subrange(22, 24) =~= u16_bytes(order, visual_blue));
    lemma_u16_read(order, r, 22, visual_blue);
}

/// A QueryExtension reply carries the sequence number at 2 and, at 8 to 11, whether
/// the extension is present, its major opcode, its first event and its first error.
pub proof fn lemma_query_extension_reply_layout(
    order: ByteOrder,
    sequence: u16,
    present: bool,
    major_opcode: u8,
    first_event: u8,
    first_error: u8,
)
    ensures
        ({
            let r = query_extension_reply_bytes(order, sequence, present, major_opcode, first_event, first_error);
            &&& r.len() == 32
            &&& r[0] == 1
            &&& u16_at(order, r, 2) == sequence
            &&& u32_at(order, r, 4) == 0
            &&& r[8] == (if present { 1u8 } else { 0u8 })
            &&& r[9] == major_opcode
            &&& r[10] == first_event
            &&& r[11] == first_error
        }),
{
    broadcast use group_wire_lengths;

    let r = query_extension_reply_bytes(order, sequence, present, major_opcode, first_event, first_error);
    assert(r[0] == 1);
    assert(r.subrange(2, 4) =~= u16_bytes(order, sequence));
    lemma_u16_read(order, r, 2, sequence);
    assert(r.subrange(4, 8) =~= u32_bytes(order, 0));
    lemma_u32_read(order, r, 4, 0);
    assert(r[8] == (if present { 1u8 } else { 0u8 }));
    assert(r[9] == major_opcode);
    assert(r[10] == first_event);
    assert(r[11] == first_error);
}

/// A QueryPointer reply carries whether the pointer is on the same screen in the data
/// byte, the sequence number at 2, the root at 8, the child at 12, the root position at
/// 16 and 18, the window position at 20 and 22, and the key and button mask at 24.
pub proof fn lemma_query_pointer_reply_layout(
    order: ByteOrder,
    sequence: u16,
    same_screen: bool,
    root: Window,
    child: Window,
    root_x: i16,
    root_y: i16,
    win_x: i16,
    win_y: i16,
    mask: u16,
)
    ensures
        ({
            let r = query_pointer_reply_bytes(
                order, sequence, same_screen, root, child, root_x, root_y, win_x, win_y, mask,
            );
            &&& r.len() == 32
            &&& r[0] == 1
            &&& r[1] == (if same_screen { 1u8 } else { 0u8 })
            &&& u16_at(order, r, 2) == sequence
            &&& u32_at(order, r, 4) == 0
            &&& u32_at(order, r, 8) == root.0.0
            &&& u32_at(order, r, 12) == child.0.0
            &&& i16_at(order, r, 16) == root_x
            &&& i16_at(order, r, 18) == root_y
            &&& i16_at(order, r, 20) == win_x
            &&& i16_at(order, r, 22) == win_y
            &&& u16_at(order, r, 24) == mask
        }),
{
    broadcast use group_wire_lengths;

    let r = query_pointer_reply_bytes(
                order, sequence, same_screen, root, child, root_x, root_y, win_x, win_y, mask,
            );
    assert(r[0] == 1);
    assert(r[1] == (if same_screen { 1u8 } else { 0u8 }));
    assert(r.subrange(2, 4) =~= u16_bytes(order, sequence));
    lemma_u16_read(order, r, 2, sequence);
    assert(r.subrange(4, 8) =~= u32_bytes(order, 0));
    lemma_u32_read(order, r, 4, 0);
    assert(r.subrange(8, 12) =~= u32_bytes(order, root.0.0));
    lemma_u32_read(order, r, 8, root.0.0);
    assert(r.subrange(12, 16) =~= u32_bytes(order, child.0.0));
    lemma_u32_read(order, r, 12, child.0.0);
    assert(r.subrange(16, 18) =~= i16_bytes(order, root_x));
    lemma_i16_read(order, r, 16, root_x);
    assert(r.subrange(18, 20) =~= i16_bytes(order, root_y));
    lemma_i16_read(order, r, 18, root_y);
    assert(r.subrange(20, 22) =~= i16_bytes(order, win_x));
    lemma_i16_read(order, r, 20, win_x);
    assert(r.subrange(22, 24) =~= i16_bytes(order, win_y));
    lemma_i16_read(order, r, 22, win_y);
    assert(r.subrange(24, 26) =~= u16_bytes(order, mask));
    lemma_u16_read(order, r, 24, mask);
}

/// A TranslateCoordinates reply carries whether the windows are on the same screen in
/// the data byte, the sequence number at 2, the child at 8 and the translated position
/// at 12 and 14.
pub proof fn lemma_translate_coordinates_reply_layout(
    order: ByteOrder,
    sequence: u16,
    same_screen: bool,
    child: Window,
    dst_x: i16,
    dst_y: i16,
)
    ensures
        ({
            let r = translate_coordinates_reply_bytes(order, sequence, same_screen, child, dst_x, dst_y);
            &&& r.len() == 32
            &&& r[0] == 1
            &&& r[1] == (if same_screen { 1u8 } else { 0u8 })
            &&& u16_at(order, r, 2) == sequence
            &&& u32_at(order, r, 4) == 0
            &&& u32_at(order, r, 8) == child.0.0
            &&& i16_at(order, r, 12) == dst_x
            &&& i16_at(order, r, 14) == dst_y
        }),
{
    broadcast use group_wire_lengths;

    let r = translate_coordinates_reply_bytes(order, sequence, same_screen, child, dst_x, dst_y);
    assert(r[0] == 1);
    assert(r[1] == (if same_screen { 1u8 } else { 0u8 }));
    assert(r.subrange(2, 4) =~= u16_bytes(order, sequence));
    lemma_u16_read(order, r, 2, sequence);
    assert(r.subrange(4, 8) =~= u32_bytes(order, 0));
    lemma_u32_read(order, r, 4, 0);
    assert(r.subrange(8, 12) =~= u32_bytes(order, child.0.0));
    lemma_u32_read(order, r, 8, child.0.0);
    assert(r.subrange(12, 14) =~= i16_bytes(order, dst_x));
    lemma_i16_read(order, r, 12, dst_x);
    assert(r.subrange(14, 16) =~= i16_bytes(order, dst_y));
    lemma_i16_read(order, r, 14, dst_y);
}

/// A GetScreenSaver reply carries the sequence number at 2, the timeout at 8, the
/// interval at 10, and the blanking and exposure choices at 12 and 13.
pub proof fn lemma_get_screen_saver_reply_layout(
    order: ByteOrder,
    sequence: u16,
    timeout: u16,
    interval: u16,
    prefer_blanking: u8,
    allow_exposures: u8,
)
    ensures
        ({
            let r = get_screen_saver_reply_bytes(order, sequence, timeout, interval, prefer_blanking, allow_exposures);
            &&& r.len() == 32
            &&& r[0] == 1
            &&& u16_at(order, r, 2) == sequence
            &&& u32_at(order, r, 4) == 0
            &&& u16_at(order, r, 8) == timeout
            &&& u16_at(order, r, 10) == interval
            &&& r[12] == prefer_blanking
            &&& r[13] == allow_exposures
        }),
{
    broadcast use group_wire_lengths;

    let r = get_screen_saver_reply_bytes(order, sequence, timeout, interval, prefer_blanking, allow_exposures);
    assert(r[0] == 1);
    assert(r.subrange(2, 4) =~= u16_bytes(order, sequence));
    lemma_u16_read(order, r, 2, sequence);
    assert(r.subrange(4, 8) =~= u32_bytes(order, 0));
    lemma_u32_read(order, r, 4, 0);
    assert(r.subrange(8, 10) =~= u16_bytes(order, timeout));
    lemma_u16_read(order, r, 8, timeout);
    assert(r.subrange(10, 12) =~= u16_bytes(order, interval));
    lemma_u16_read(order, r, 10, interval);
    assert(r[12] == prefer_blanking);
    assert(r[13] == allow_exposures);
}

/// A GetProperty reply carries the format in the data byte, the sequence number at 2,
/// the property's type at 8, the bytes left after it at 12, the number of items at 16,
/// and the value itself from offset 32 on.
pub proof fn lemma_get_property_reply_layout(
    order: ByteOrder,
    sequence: u16,
    format: u8,
    type_: Atom,
    bytes_after: u32,
    value: Seq<u8>,
)
    ensures
        ({
            let r = get_property_reply_bytes(order, sequence, format, type_, bytes_after, value);
            &&& r[0] == 1
            &&& r[1] == format
            &&& u16_at(order, r, 2) == sequence
            &&& u32_at(order, r, 8) == type_.0
            &&& u32_at(order, r, 12) == bytes_after
            &&& u32_at(order, r, 16) == property_value_len(format, value.len())
            &&& r.subrange(32, 32 + value.len() as int) == value
        }),
{
    broadcast use group_wire_lengths;

    let r = get_property_reply_bytes(order, sequence, format, type_, bytes_after, value);
    assert(r[0] == 1);
    assert(r[1] == format);
    assert(r.subrange(2, 4) =~= u16_bytes(order, sequence));
    lemma_u16_read(order, r, 2, sequence);
    assert(r.subrange(8, 12) =~= u32_bytes(order, type_.0));
    lemma_u32_read(order, r, 8, type_.0);
    assert(r.subrange(12, 16) =~= u32_bytes(order, bytes_after));
    lemma_u32_read(order, r, 12, bytes_after);
    assert(r.subrange(16, 20) =~= u32_bytes(order, property_value_len(format, value.len())));
    lemma_u32_read(order, r, 16, property_value_len(format, value.len()));
}

/// A GetAtomName reply carries the sequence number at 2, the name's length at 8 and
/// the name itself from offset 32 on.
pub proof fn lemma_get_atom_name_reply_layout(
    order: ByteOrder,
    sequence: u16,
    name: Seq<u8>,
)
    ensures
        ({
            let r = get_atom_name_reply_bytes(order, sequence, name);
            &&& r[0] == 1
            &&& u16_at(order, r, 2) == sequence
            &&& u16_at(order, r, 8) == name.len() as u16
            &&& r.subrange(32, 32 + name.len() as int) == name
        }),
{
    broadcast use group_wire_lengths;

    let r = get_atom_name_reply_bytes(order, sequence, name);
    assert(r[0] == 1);
    assert(r.subrange(2, 4) =~= u16_bytes(order, sequence));
    lemma_u16_read(order, r, 2, sequence);
    assert(r.subrange(8, 10) =~= u16_bytes(order, name.len() as u16));
    lemma_u16_read(order, r, 8, name.len() as u16);
}

/// A QueryFont reply of a font of one character size carries the sequence number at
/// 2, the length 7 at 4, the widest character's bearings at 24 and 26, its width at 28,
/// its ascent and descent at 30 and 32, the last character 255 at 42, that all
/// characters exist at 51, the font's ascent and descent at 52 and 54, and no
/// per-character information at 56.
pub proof fn lemma_query_font_reply_layout(
    order: ByteOrder,
    sequence: u16,
    font_ascent: i16,
    font_descent: i16,
    char_width: i16,
)
    ensures
        ({
            let r = query_font_reply_bytes(order, sequence, font_ascent, font_descent, char_width);
            &&& r.len() == 60
            &&& r[0] == 1
            &&& u16_at(order, r, 2) == sequence
            &&& u32_at(order, r, 4) == 7
            &&& i16_at(order, r, 24) == 0
            &&& i16_at(order, r, 26) == char_width
            &&& i16_at(order, r, 28) == char_width
            &&& i16_at(order, r, 30) == font_ascent
            &&& i16_at(order, r, 32) == font_descent
            &&& u16_at(order, r, 42) == 255
            &&& r[51] == 1
            &&& i16_at(order, r, 52) == font_ascent
            &&& i16_at(order, r, 54) == font_descent
            &&& u32_at(order, r, 56) == 0
        }),
{
    broadcast use group_wire_lengths;

    let r = query_font_reply_bytes(order, sequence, font_ascent, font_descent, char_width);
    assert(r[0] == 1);
    assert(r.subrange(2, 4) =~= u16_bytes(order, sequence));
    lemma_u16_read(order, r, 2, sequence);
    assert(r.subrange(4, 8) =~= u32_bytes(order, 7));
    lemma_u32_read(order, r, 4, 7);
    assert(r.subrange(24, 26) =~= i16_bytes(order, 0));
    lemma_i16_read(order, r, 24, 0);
    assert(r.subrange(26, 28) =~= i16_bytes(order, char_width));
    lemma_i16_read(order, r, 26, char_width);
    assert(r.subrange(28, 30) =~= i16_bytes(order, char_width));
    lemma_i16_read(order, r, 28, char_width);
    assert(r.subrange(30, 32) =~= i16_bytes(order, font_ascent));
    lemma_i16_read(order, r, 30, font_ascent);
    assert(r.subrange(32, 34) =~= i16_bytes(order, font_descent));
    lemma_i16_read(order, r, 32, font_descent);
    assert(r.subrange(42, 44) =~= u16_bytes(order, 255));
    lemma_u16_read(order, r, 42, 255);
    assert(r[51] == 1);
    assert(r.subrange(52, 54) =~= i16_bytes(order, font_ascent));
    lemma_i16_read(order, r, 52, font_ascent);
    assert(r.subrange(54, 56) =~= i16_bytes(order, font_descent));
    lemma_i16_read(order, r, 54, font_descent);
    assert(r.subrange(56, 60) =~= u32_bytes(order, 0));
    lemma_u32_read(order, r, 56, 0);
}

/// A ListFonts reply carries the sequence number at 2, the number of names at 8 and
/// the list of names from offset 32 on.
pub proof fn lemma_list_fonts_reply_layout(
    order: ByteOrder,
    sequence: u16,
    font_names: Seq<String>,
)
    ensures
        ({
            let r = list_fonts_reply_bytes(order, sequence, font_names);
            &&& r[0] == 1
            &&& u16_at(order, r, 2) == sequence
            &&& u16_at(order, r, 8) == font_names.len() as u16
            &&& r.len() == 32 + str_list(font_names).len()
            &&& r.subrange(32, r.len() as int) == str_list(font_names)
        }),
{
    broadcast use group_wire_lengths;

    let r = list_fonts_reply_bytes(order, sequence, font_names);
    assert(r[0] == 1);
    assert(r.subrange(2, 4) =~= u16_bytes(order, sequence));
    lemma_u16_read(order, r, 2, sequence);
    assert(r.subrange(8, 10) =~= u16_bytes(order, font_names.len() as u16));
    lemma_u16_read(order, r, 8, font_names.len() as u16);
    assert(r.subrange(32, r.len() as int) =~= str_list(font_names));
}

/// A ListExtensions reply carries the number of names in its data byte, the sequence
/// number at 2 and the list of names from offset 32 on.
pub proof fn lemma_list_extensions_reply_layout(
    order: ByteOrder,
    sequence: u16,
    extension_names: Seq<String>,
)
    ensures
        ({
            let r = list_extensions_reply_bytes(order, sequence, extension_names);
            &&& r[0] == 1
            &&& r[1] == extension_names.len() as u8
            &&& u16_at(order, r, 2) == sequence
            &&& r.len() == 32 + str_list(extension_names).len()
            &&& r.subrange(32, r.len() as int) == str_list(extension_names)
        }),
{
    broadcast use group_wire_lengths;

    let r = list_extensions_reply_bytes(order, sequence, extension_names);
    assert(r[0] == 1);
    assert(r[1] == extension_names.len() as u8);
    assert(r.subrange(2, 4) =~= u16_bytes(order, sequence));
    lemma_u16_read(order, r, 2, sequence);
    assert(r.subrange(32, r.len() as int) =~= str_list(extension_names));
}

/// The first eight bytes of a reply read back as the values written into them.
pub proof fn lemma_reply_header(order: ByteOrder, data: u8, sequence: u16, length: u32, rest: Seq<u8>)
    ensures
        (reply_header(order, data, sequence, length) + rest).len() == 8 + rest.len(),
        (reply_header(order, data, sequence, length) + rest)[0] == 1,
        (reply_header(order, data, sequence, length) + rest)[1] == data,
        u16_at(order, reply_header(order, data, sequence, length) + rest, 2) == sequence,
        u32_at(order, reply_header(order, data, sequence, length) + rest, 4) == length,
{
    lemma_u16_roundtrip(order, sequence);
    lemma_u32_roundtrip(order, length);
}

/// Replies of a fixed size announce it: the length field of an empty reply is 0, of
/// a QueryKeymap reply 2, of a QueryFont reply 7.
pub proof fn lemma_fixed_replies_framed(
    order: ByteOrder,
    sequence: u16,
    keys: Seq<u8>,
    font_ascent: i16,
    font_descent: i16,
    char_width: i16,
)
    requires
        keys.len() == 32,
    ensures
        framed_reply(order, void_reply_bytes(order, sequence), sequence),
        framed_reply(order, query_keymap_reply_bytes(order, sequence, keys), sequence),
        framed_reply(
            order,
            query_font_reply_bytes(order, sequence, font_ascent, font_descent, char_width),
            sequence,
        ),
{
    broadcast use super::wire::group_wire_lengths;

    lemma_reply_header(order, 0, sequence, 0, zeros(24));
    lemma_reply_header(order, 0, sequence, 2, keys);
    let font = query_font_reply_bytes(order, sequence, font_ascent, font_descent, char_width);
    let rest = font.skip(8);
    assert(font =~= reply_header(order, 0, sequence, 7) + rest);
    lemma_reply_header(order, 0, sequence, 7, rest);
}

/// A GetAtomName reply announces the name's padded length, when that fits the field.
pub proof fn lemma_atom_name_reply_framed(order: ByteOrder, sequence: u16, name: Seq<u8>)
    requires
        name.len() + 3 <= 4 * u32::MAX,
    ensures
        framed_reply(order, get_atom_name_reply_bytes(order, sequence, name), sequence),
{
    broadcast use super::wire::group_wire_lengths;

    let bytes = get_atom_name_reply_bytes(order, sequence, name);
    let padded = (name.len() + spec_pad(name.len() as int)) / 4;
    let rest = bytes.skip(8);
    assert(bytes =~= reply_header(order, 0, sequence, padded as u32) + rest);
    lemma_reply_header(order, 0, sequence, padded as u32, rest);
}

/// A GetProperty reply announces the value's padded length, when that fits the field.
pub proof fn lemma_property_reply_framed(
    order: ByteOrder,
    sequence: u16,
    format: u8,
    type_: Atom,
    bytes_after: u32,
    value: Seq<u8>,
)
    requires
        value.len() + 3 <= 4 * u32::MAX,
    ensures
        framed_reply(
            order,
            get_property_reply_bytes(order, sequence, format, type_, bytes_after, value),
            sequence,
        ),
{
    broadcast use super::wire::group_wire_lengths;

    let bytes = get_property_reply_bytes(order, sequence, format, type_, bytes_after, value);
    let n = value.len() as int;
    let p = spec_pad(n);
    assert((n + p) % 4 == 0 && 0 <= p < 4);
    let padded = (n + p) / 4;
    let rest = bytes.skip(8);
    assert(bytes.len() == 32 + n + p);
    assert(bytes =~= reply_header(order, format, sequence, padded as u32) + rest);
    lemma_reply_header(order, format, sequence, padded as u32, rest);
}

/// A QueryTree reply announces one 4-byte unit for each child, when their number fits
/// the field.
pub proof fn lemma_query_tree_reply_framed(
    order: ByteOrder,
    sequence: u16,
    root: Window,
    parent: Window,
    children: Seq<Window>,
)
    requires
        children.len() <= u32::MAX,
    ensures
        framed_reply(order, query_tree_reply_bytes(order, sequence, root, parent, children), sequence),
{
    broadcast use super::wire::group_wire_lengths;

    lemma_windows_bytes_len(order, children);
    let bytes = query_tree_reply_bytes(order, sequence, root, parent, children);
    let rest = bytes.skip(8);
    assert(bytes =~= reply_header(order, 0, sequence, children.len() as u32) + rest);
    lemma_reply_header(order, 0, sequence, children.len() as u32, rest);
}

proof fn lemma_windows_bytes_len(order: ByteOrder, windows: Seq<Window>)
    ensures
        windows_bytes(order, windows).len() == 4 * windows.len(),
    decreases windows.len(),
{
    broadcast use super::wire::group_wire_lengths;

    if windows.len() > 0 {
        lemma_windows_bytes_len(order, windows.drop_last());
    }
}

/// A ListFonts or ListExtensions reply announces the padded length of its names, when
/// that fits the field.
pub proof fn lemma_name_list_replies_framed(order: ByteOrder, sequence: u16, names: Seq<String>)
    requires
        str_list(names).len() <= 4 * u32::MAX,
    ensures
        str_list(names).len() % 4 == 0,
        framed_reply(order, list_fonts_reply_bytes(order, sequence, names), sequence),
        framed_reply(order, list_extensions_reply_bytes(order, sequence, names), sequence),
{
    broadcast use super::wire::group_wire_lengths;

    let data = str_list(names);
    let entries = str_entries(names_bytes(names));
    assert((entries.len() + spec_pad(entries.len() as int)) % 4 == 0);
    let fonts = list_fonts_reply_bytes(order, sequence, names);
    assert(fonts =~= reply_header(order, 0, sequence, (data.len() / 4) as u32) + fonts.skip(8));
    lemma_reply_header(order, 0, sequence, (data.len() / 4) as u32, fonts.skip(8));
    let exts = list_extensions_reply_bytes(order, sequence, names);
    assert(exts =~= reply_header(order, names.len() as u8, sequence, (data.len() / 4) as u32)
        + exts.skip(8));
    lemma_reply_header(order, names.len() as u8, sequence, (data.len() / 4) as u32, exts.skip(8));
}

/// The LISTofSTR of `names`: each name cut to at most 255 bytes after a byte with its
/// length, and zeros up to a multiple of four bytes.
fn str_list_data(names: &[String]) -> (r: Vec<u8>)
    ensures
        r@ == str_list(names@),
{
    let ghost all = names_bytes(names@);
    let mut str_data: Vec<u8> = Vec::new();
    let mut i: usize = 0;
    while i < names.len()
        invariant
            i <= names@.len(),
            all == names_bytes(names@),
            str_data@ == str_entries(all.take(i as int)),
        decreases names@.len() - i,
    {
        let name_bytes = names[i].as_str().as_bytes();
        let len: usize = if name_bytes.len() < 255 {
            name_bytes.len()
        } else {
            255
        };
        str_data.push(len as u8);
        push_bytes(&mut str_data, vstd::slice::slice_subrange(name_bytes, 0, len));
        i = i + 1;
        assert(all.take(i as int).drop_last() =~= all.take(i - 1));
        assert(all.take(i as int).last() == encode_utf8(names@[i - 1]@));
        assert(str_data@ =~= str_entries(all.take(i as int)));
    }
    assert(all.take(names@.len() as int) =~= all);

    // Pad to 4-byte boundary
    let padding = pad(str_data.len());
    push_zeros(&mut str_data, padding);
    str_data
}

/// Reply encoder
pub struct ProtocolEncoder {
    byte_order: ByteOrder,
}

impl ProtocolEncoder {
    /// The byte order the encoder writes in.
    pub closed spec fn spec_byte_order(&self) -> ByteOrder {
        self.byte_order
    }

    pub fn new(byte_order: ByteOrder) -> (r: Self)
        ensures
            r.spec_byte_order() == byte_order,
    {
        ProtocolEncoder { byte_order }
    }

    // Helper methods for writing with correct byte order
    fn write_u16(&self, value: u16) -> (r: [u8; 2])
        ensures
            r@ == u16_bytes(self.byte_order, value),
    {
        let lo = (value % 256) as u8;
        let hi = (value / 256) as u8;
        let r = match self.byte_order {
            ByteOrder::MSBFirst => [hi, lo],
            ByteOrder::LSBFirst => [lo, hi],
        };
        assert(r@ =~= u16_bytes(self.byte_order, value));
        r
    }

    fn write_u32(&self, value: u32) -> (r: [u8; 4])
        ensures
            r@ == u32_bytes(self.byte_order, value),
    {
        let b0 = (value % 256) as u8;
        let b1 = ((value / 256) % 256) as u8;
        let b2 = ((value / 65536) % 256) as u8;
        let b3 = (value / 16777216) as u8;
        let r = match self.byte_order {
            ByteOrder::MSBFirst => [b3, b2, b1, b0],
            ByteOrder::LSBFirst => [b0, b1, b2, b3],
        };
        assert(r@ =~= u32_bytes(self.byte_order, value));
        r
    }

    fn write_i16(&self, value: i16) -> (r: [u8; 2])
        ensures
            r@ == i16_bytes(self.byte_order, value),
    {
        let bits: u16 = if value >= 0 {
            value as u16
        } else {
            (value as i32 + 65536) as u16
        };
        self.write_u16(bits)
    }

    fn add_u16(&self, buffer: &mut Vec<u8>, value: u16)
        ensures
            final(buffer)@ == old(buffer)@ + u16_bytes(self.byte_order, value),
    {
        let bytes = self.write_u16(value);
        push_bytes(buffer, bytes.as_slice());
    }

    fn add_u32(&self, buffer: &mut Vec<u8>, value: u32)
        ensures
            final(buffer)@ == old(buffer)@ + u32_bytes(self.byte_order, value),
    {
        let bytes = self.write_u32(value);
        push_bytes(buffer, bytes.as_slice());
    }

    fn add_i16(&self, buffer: &mut Vec<u8>, value: i16)
        ensures
            final(buffer)@ == old(buffer)@ + i16_bytes(self.byte_order, value),
    {
        let bytes = self.write_i16(value);
        push_bytes(buffer, bytes.as_slice());
    }

    /// A new buffer holding the first eight bytes of a reply.
    fn header(&self, data: u8, sequence: u16, length: u32) -> (r: Vec<u8>)
        ensures
            r@ == reply_header(self.byte_order, data, sequence, length),
    {
        let mut buffer: Vec<u8> = Vec::new();
        buffer.push(1u8);
        buffer.push(data);
        self.add_u16(&mut buffer, sequence);
        self.add_u32(&mut buffer, length);
        assert(buffer@ =~= reply_header(self.byte_order, data, sequence, length));
        buffer
    }

    /// Encode GetWindowAttributes reply
    pub fn encode_get_window_attributes_reply(
        &self,
        sequence: u16,
        visual: VisualID,
        class: WindowClass,
        bit_gravity: u8,
        backing_store: BackingStore,
        backing_planes: u32,
        backing_pixel: u32,
        save_under: bool,
        map_is_installed: bool,
        map_state: MapState,
        override_redirect: bool,
        colormap: Colormap,
        all_event_masks: u32,
        your_event_mask: u32,
        do_not_propagate_mask: u16,
    ) -> (r: Vec<u8>)
        ensures
            r@ == get_window_attributes_reply_bytes(
                self.spec_byte_order(),
                sequence,
                visual,
                class,
                bit_gravity,
                backing_store,
                backing_planes,
                backing_pixel,
                save_under,
                map_is_installed,
                map_state,
                override_redirect,
                colormap,
                all_event_masks,
                your_event_mask,
                do_not_propagate_mask,
            ),
    {
        // Length: the 12 bytes after the first 32, in 4-byte units
        let mut buffer = self.header(backing_store.code(), sequence, 3);
        self.add_u32(&mut buffer, visual.get());
        self.add_u16(&mut buffer, class.code());
        buffer.push(bit_gravity);
        buffer.push(backing_store.code());
        self.add_u32(&mut buffer, backing_planes);
        self.add_u32(&mut buffer, backing_pixel);
        buffer.push(if save_under { 1u8 } else { 0u8 });
        buffer.push(if map_is_installed { 1u8 } else { 0u8 });
        buffer.push(map_state.code());
        buffer.push(if override_redirect { 1u8 } else { 0u8 });
        self.add_u32(&mut buffer, colormap.id().get());

        // Additional data
        self.add_u32(&mut buffer, all_event_masks);
        self.add_u32(&mut buffer, your_event_mask);
        self.add_u16(&mut buffer, do_not_propagate_mask);
        push_zeros(&mut buffer, 2);
        assert(buffer@ =~= get_window_attributes_reply_bytes(
            self.byte_order,
            sequence,
            visual,
            class,
            bit_gravity,
            backing_store,
            backing_planes,
            backing_pixel,
            save_under,
            map_is_installed,
            map_state,
            override_redirect,
            colormap,
            all_event_masks,
            your_event_mask,
            do_not_propagate_mask,
        ));
        buffer
    }

    /// Encode GetGeometry reply
    pub fn encode_get_geometry_reply(
        &self,
        sequence: u16,
        depth: u8,
        root: Window,
        x: i16,
        y: i16,
        width: u16,
        height: u16,
        border_width: u16,
    ) -> (r: Vec<u8>)
        ensures
            r@ == get_geometry_reply_bytes(
                self.spec_byte_order(),
                sequence,
                depth,
                root,
                x,
                y,
                width,
                height,
                border_width,
            ),
    {
        // No additional data
        let mut buffer = self.header(depth, sequence, 0);
        self.add_u32(&mut buffer, root.id().get());
        self.add_i16(&mut buffer, x);
        self.add_i16(&mut buffer, y);
        self.add_u16(&mut buffer, width);
        self.add_u16(&mut buffer, height);
        self.add_u16(&mut buffer, border_width);
        push_zeros(&mut buffer, 10);
        assert(buffer@ =~= get_geometry_reply_bytes(
            self.byte_order,
            sequence,
            depth,
            root,
            x,
            y,
            width,
            height,
            border_width,
        ));
        buffer
    }

    /// Encode QueryTree reply
    pub fn encode_query_tree_reply(
        &self,
        sequence: u16,
        root: Window,
        parent: Window,
        children: &[Window],
    ) -> (r: Vec<u8>)
        ensures
            r@ == query_tree_reply_bytes(self.spec_byte_order(), sequence, root, parent, children@),
    {
        let mut buffer = self.header(0, sequence, children.len() as u32);
        self.add_u32(&mut buffer, root.id().get());
        self.add_u32(&mut buffer, parent.id().get());
        self.add_u16(&mut buffer, children.len() as u16);
        push_zeros(&mut buffer, 14);
        let ghost fixed = buffer@;

        // Append children; each takes four bytes, so no padding follows
        let mut i: usize = 0;
        while i < children.len()
            invariant
                i <= children@.len(),
                buffer@ == fixed + windows_bytes(self.byte_order, children@.take(i as int)),
            decreases children@.len() - i,
        {
            self.add_u32(&mut buffer, children[i].id().get());
            i = i + 1;
            assert(children@.take(i as int).drop_last() =~= children@.take(i - 1));
        }
        assert(children@.take(children@.len() as int) =~= children@);
        assert(buffer@ =~= query_tree_reply_bytes(self.byte_order, sequence, root, parent, children@));
        buffer
    }

    /// Encode InternAtom reply
    pub fn encode_intern_atom_reply(&self, sequence: u16, atom: Atom) -> (r: Vec<u8>)
        ensures
            r@ == intern_atom_reply_bytes(self.spec_byte_order(), sequence, atom),
    {
        let mut buffer = self.header(0, sequence, 0);
        self.add_u32(&mut buffer, atom.get());
        push_zeros(&mut buffer, 20);
        assert(buffer@ =~= intern_atom_reply_bytes(self.byte_order, sequence, atom));
        buffer
    }

    /// Encode GetAtomName reply
    pub fn encode_get_atom_name_reply(&self, sequence: u16, name: &str) -> (r: Vec<u8>)
        requires
            encode_utf8(name@).len() + 3 <= usize::MAX,
        ensures
            r@ == get_atom_name_reply_bytes(self.spec_byte_order(), sequence, encode_utf8(name@)),
    {
        let name_bytes = name.as_bytes();
        let name_len = name_bytes.len();
        let name_padded = padded_len(name_len);

        let mut buffer = self.header(0, sequence, (name_padded / 4) as u32);
        self.add_u16(&mut buffer, name_len as u16);
        push_zeros(&mut buffer, 22);

        // Append name, padded to a 4-byte boundary
        push_bytes(&mut buffer, name_bytes);
        push_zeros(&mut buffer, pad(name_len));
        assert(buffer@ =~= get_atom_name_reply_bytes(self.byte_order, sequence, name_bytes@));
        buffer
    }

    /// Encode GetProperty reply
    pub fn encode_get_property_reply(
        &self,
        sequence: u16,
        format: u8,
        type_: Atom,
        bytes_after: u32,
        value: &[u8],
    ) -> (r: Vec<u8>)
        requires
            value@.len() + 3 <= usize::MAX,
        ensures
            r@ == get_property_reply_bytes(
                self.spec_byte_order(),
                sequence,
                format,
                type_,
                bytes_after,
                value@,
            ),
    {
        let value_padded = padded_len(value.len());
        let value_len: u32 = match format {
            8 => value.len() as u32,
            16 => (value.len() / 2) as u32,
            32 => (value.len() / 4) as u32,
            _ => 0,
        };

        let mut buffer = self.header(format, sequence, (value_padded / 4) as u32);
        self.add_u32(&mut buffer, type_.get());
        self.add_u32(&mut buffer, bytes_after);
        self.add_u32(&mut buffer, value_len);
        push_zeros(&mut buffer, 12);

        // Append value, padded to a 4-byte boundary
        push_bytes(&mut buffer, value);
        push_zeros(&mut buffer, pad(value.len()));
        assert(buffer@ =~= get_property_reply_bytes(
            self.byte_order,
            sequence,
            format,
            type_,
            bytes_after,
            value@,
        ));
        buffer
    }
    /// Encode QueryExtension reply
    pub fn encode_query_extension_reply(
        &self,
        sequence: u16,
        present: bool,
        major_opcode: u8,
        first_event: u8,
        first_error: u8,
    ) -> (r: Vec<u8>)
        ensures
            r@ == query_extension_reply_bytes(
                self.spec_byte_order(),
                sequence,
                present,
                major_opcode,
                first_event,
                first_error,
            ),
    {
        let mut buffer = self.header(0, sequence, 0);
        buffer.push(if present { 1u8 } else { 0u8 });
        buffer.push(major_opcode);
        buffer.push(first_event);
        buffer.push(first_error);
        push_zeros(&mut buffer, 20);
        assert(buffer@ =~= query_extension_reply_bytes(
            self.byte_order,
            sequence,
            present,
            major_opcode,
            first_event,
            first_error,
        ));
        buffer
    }

    /// Encode GetInputFocus reply
    pub fn encode_get_input_focus_reply(&self, sequence: u16, focus: Window, revert_to: u8) -> (r:
        Vec<u8>)
        ensures
            r@ == get_input_focus_reply_bytes(self.spec_byte_order(), sequence, focus, revert_to),
    {
        let mut buffer = self.header(revert_to, sequence, 0);
        self.add_u32(&mut buffer, focus.id().0);
        push_zeros(&mut buffer, 20);
        assert(buffer@ =~= get_input_focus_reply_bytes(self.byte_order, sequence, focus, revert_to));
        buffer
    }

    /// Encode AllocColor reply
    pub fn encode_alloc_color_reply(
        &self,
        sequence: u16,
        pixel: u32,
        red: u16,
        green: u16,
        blue: u16,
    ) -> (r: Vec<u8>)
        ensures
            r@ == alloc_color_reply_bytes(self.spec_byte_order(), sequence, pixel, red, green, blue),
    {
        let mut buffer = self.header(0, sequence, 0);
        self.add_u16(&mut buffer, red);
        self.add_u16(&mut buffer, green);
        self.add_u16(&mut buffer, blue);
        // bytes 14-15 unused
        push_zeros(&mut buffer, 2);
        self.add_u32(&mut buffer, pixel);
        push_zeros(&mut buffer, 12);
        assert(buffer@ =~= alloc_color_reply_bytes(self.byte_order, sequence, pixel, red, green, blue));
        buffer
    }

    /// Encode AllocNamedColor reply
    pub fn encode_alloc_named_color_reply(
        &self,
        sequence: u16,
        pixel: u32,
        exact_red: u16,
        exact_green: u16,
        exact_blue: u16,
        visual_red: u16,
        visual_green: u16,
        visual_blue: u16,
    ) -> (r: Vec<u8>)
        ensures
            r@ == alloc_named_color_reply_bytes(
                self.spec_byte_order(),
                sequence,
                pixel,
                exact_red,
                exact_green,
                exact_blue,
                visual_red,
                visual_green,
                visual_blue,
            ),
    {
        let mut buffer = self.header(0, sequence, 0);
        self.add_u32(&mut buffer, pixel);
        self.add_u16(&mut buffer, exact_red);
        self.add_u16(&mut buffer, exact_green);
        self.add_u16(&mut buffer, exact_blue);
        self.add_u16(&mut buffer, visual_red);
        self.add_u16(&mut buffer, visual_green);
        self.add_u16(&mut buffer, visual_blue);
        push_zeros(&mut buffer, 8);
        assert(buffer@ =~= alloc_named_color_reply_bytes(
            self.byte_order,
            sequence,
            pixel,
            exact_red,
            exact_green,
            exact_blue,
            visual_red,
            visual_green,
            visual_blue,
        ));
        buffer
    }

    /// Encode QueryFont reply
    ///
    /// The reply describes a font of one character size, with no font properties and
    /// no per-character information: bytes 8-19 hold the min_bounds CHARINFO (all
    /// zeros), bytes 24-35 the max_bounds CHARINFO, bytes 40-59 the font info.
    pub fn encode_query_font_reply(
        &self,
        sequence: u16,
        font_ascent: i16,
        font_descent: i16,
        char_width: i16,
        _char_height: i16,
    ) -> (r: Vec<u8>)
        ensures
            r@ == query_font_reply_bytes(
                self.spec_byte_order(),
                sequence,
                font_ascent,
                font_descent,
                char_width,
            ),
    {
        // CHARINFO for max_bounds
        let mut max_bounds: Vec<u8> = Vec::new();
        self.add_i16(&mut max_bounds, 0);  // left_side_bearing
        self.add_i16(&mut max_bounds, char_width);  // right_side_bearing
        self.add_i16(&mut max_bounds, char_width);  // character_width
        self.add_i16(&mut max_bounds, font_ascent);  // ascent
        self.add_i16(&mut max_bounds, font_descent);  // descent
        self.add_u16(&mut max_bounds, 0);  // attributes
        assert(max_bounds@ =~= max_bounds_bytes(self.byte_order, font_ascent, font_descent, char_width));

        // reply_length = 7 for no properties and no char infos
        let mut buffer = self.header(0, sequence, 7);
        // min_bounds (all zeros) and four unused bytes
        push_zeros(&mut buffer, 16);
        push_bytes(&mut buffer, max_bounds.as_slice());
        // bytes 36-39 unused
        push_zeros(&mut buffer, 4);

        // Font info at bytes 40-59
        self.add_u16(&mut buffer, 0);  // min_char_or_byte2
        self.add_u16(&mut buffer, 255);  // max_char_or_byte2
        self.add_u16(&mut buffer, 0);  // default_char
        self.add_u16(&mut buffer, 0);  // n_font_props
        buffer.push(0u8);  // draw_direction (LeftToRight)
        buffer.push(0u8);  // min_byte1
        buffer.push(0u8);  // max_byte1
        buffer.push(1u8);  // all_chars_exist
        self.add_i16(&mut buffer, font_ascent);
        self.add_i16(&mut buffer, font_descent);
        self.add_u32(&mut buffer, 0);  // n_char_infos
        assert(buffer@ =~= query_font_reply_bytes(
            self.byte_order,
            sequence,
            font_ascent,
            font_descent,
            char_width,
        ));
        buffer
    }

    /// Encode a simple success reply (no data)
    pub fn encode_void_reply(&self, sequence: u16) -> (r: Vec<u8>)
        ensures
            r@ == void_reply_bytes(self.spec_byte_order(), sequence),
    {
        let mut buffer = self.header(0, sequence, 0);
        push_zeros(&mut buffer, 24);
        buffer
    }

    /// Encode ListFonts reply
    pub fn encode_list_fonts_reply(&self, sequence: u16, font_names: &[String]) -> (r: Vec<u8>)
        ensures
            r@ == list_fonts_reply_bytes(self.spec_byte_order(), sequence, font_names@),
    {
        let str_data = str_list_data(font_names);
        // Reply length in 4-byte units (not including the header 32 bytes)
        let reply_length = str_data.len() / 4;

        let mut buffer = self.header(0, sequence, reply_length as u32);
        // number of STRs
        self.add_u16(&mut buffer, font_names.len() as u16);
        // bytes 10-31 are unused
        push_zeros(&mut buffer, 22);

        // Append the string data
        push_bytes(&mut buffer, str_data.as_slice());
        assert(buffer@ =~= list_fonts_reply_bytes(self.byte_order, sequence, font_names@));
        buffer
    }

    /// Encode ListExtensions reply
    pub fn encode_list_extensions_reply(&self, sequence: u16, extension_names: &[String]) -> (r:
        Vec<u8>)
        ensures
            r@ == list_extensions_reply_bytes(self.spec_byte_order(), sequence, extension_names@),
    {
        let str_data = str_list_data(extension_names);
        // Reply length in 4-byte units (not including the header 32 bytes)
        let reply_length = str_data.len() / 4;

        // number of STRs in the data byte
        let mut buffer = self.header(extension_names.len() as u8, sequence, reply_length as u32);
        // bytes 8-31 are unused
        push_zeros(&mut buffer, 24);

        // Append the string data
        push_bytes(&mut buffer, str_data.as_slice());
        assert(buffer@ =~= list_extensions_reply_bytes(self.byte_order, sequence, extension_names@));
        buffer
    }

    /// Encode QueryPointer reply
    pub fn encode_query_pointer_reply(
        &self,
        sequence: u16,
        same_screen: bool,
        root: Window,
        child: Window,
        root_x: i16,
        root_y: i16,
        win_x: i16,
        win_y: i16,
        mask: u16,
    ) -> (r: Vec<u8>)
        ensures
            r@ == query_pointer_reply_bytes(
                self.spec_byte_order(),
                sequence,
                same_screen,
                root,
                child,
                root_x,
                root_y,
                win_x,
                win_y,
                mask,
            ),
    {
        let mut buffer = self.header(if same_screen { 1u8 } else { 0u8 }, sequence, 0);
        self.add_u32(&mut buffer, root.id().0);
        self.add_u32(&mut buffer, child.id().0);
        self.add_i16(&mut buffer, root_x);
        self.add_i16(&mut buffer, root_y);
        self.add_i16(&mut buffer, win_x);
        self.add_i16(&mut buffer, win_y);
        self.add_u16(&mut buffer, mask);
        push_zeros(&mut buffer, 6);
        assert(buffer@ =~= query_pointer_reply_bytes(
            self.byte_order,
            sequence,
            same_screen,
            root,
            child,
            root_x,
            root_y,
            win_x,
            win_y,
            mask,
        ));
        buffer
    }

    /// Encode TranslateCoordinates reply
    pub fn encode_translate_coordinates_reply(
        &self,
        sequence: u16,
        same_screen: bool,
        child: Window,
        dst_x: i16,
        dst_y: i16,
    ) -> (r: Vec<u8>)
        ensures
            r@ == translate_coordinates_reply_bytes(
                self.spec_byte_order(),
                sequence,
                same_screen,
                child,
                dst_x,
                dst_y,
            ),
    {
        let mut buffer = self.header(if same_screen { 1u8 } else { 0u8 }, sequence, 0);
        self.add_u32(&mut buffer, child.id().0);
        self.add_i16(&mut buffer, dst_x);
        self.add_i16(&mut buffer, dst_y);
        push_zeros(&mut buffer, 16);
        assert(buffer@ =~= translate_coordinates_reply_bytes(
            self.byte_order,
            sequence,
            same_screen,
            child,
            dst_x,
            dst_y,
        ));
        buffer
    }

    /// Encode QueryKeymap reply
    pub fn encode_query_keymap_reply(&self, sequence: u16, keys: &[u8; 32]) -> (r: Vec<u8>)
        ensures
            r@ == query_keymap_reply_bytes(self.spec_byte_order(), sequence, keys@),
    {
        // Length in 4-byte units: the 8 bytes after the first 32
        let mut buffer = self.header(0, sequence, 2);
        push_bytes(&mut buffer, keys.as_slice());
        buffer
    }

    /// Encode GrabPointer reply
    /// status: 0=Success, 1=AlreadyGrabbed, 2=InvalidTime, 3=NotViewable, 4=Frozen
    pub fn encode_grab_pointer_reply(&self, sequence: u16, status: u8) -> (r: Vec<u8>)
        ensures
            r@ == grab_reply_bytes(self.spec_byte_order(), sequence, status),
    {
        let mut buffer = self.header(status, sequence, 0);
        push_zeros(&mut buffer, 24);
        buffer
    }

    /// Encode GrabKeyboard reply
    /// status: 0=Success, 1=AlreadyGrabbed, 2=InvalidTime, 3=NotViewable, 4=Frozen
    pub fn encode_grab_keyboard_reply(&self, sequence: u16, status: u8) -> (r: Vec<u8>)
        ensures
            r@ == grab_reply_bytes(self.spec_byte_order(), sequence, status),
    {
        let mut buffer = self.header(status, sequence, 0);
        push_zeros(&mut buffer, 24);
        buffer
    }

    /// Encode GetScreenSaver reply
    pub fn encode_get_screen_saver_reply(
        &self,
        sequence: u16,
        timeout: u16,
        interval: u16,
        prefer_blanking: u8,
        allow_exposures: u8,
    ) -> (r: Vec<u8>)
        ensures
            r@ == get_screen_saver_reply_bytes(
                self.spec_byte_order(),
                sequence,
                timeout,
                interval,
                prefer_blanking,
                allow_exposures,
            ),
    {
        let mut buffer = self.header(0, sequence, 0);
        self.add_u16(&mut buffer, timeout);
        self.add_u16(&mut buffer, interval);
        buffer.push(prefer_blanking);
        buffer.push(allow_exposures);
        push_zeros(&mut buffer, 18);
        assert(buffer@ =~= get_screen_saver_reply_bytes(
            self.byte_order,
            sequence,
            timeout,
            interval,
            prefer_blanking,
            allow_exposures,
        ));
        buffer
    }

    // ========== Event Encoders ==========

    /// A 32-byte buffer holding `event` in the encoder's byte order.
    fn encode_event(&self, event: &Event) -> (r: Vec<u8>)
        ensures
            r@ == event.spec_encoded(32, self.byte_order),
    {
        let mut buffer: Vec<u8> = Vec::new();
        push_zeros(&mut buffer, 32);
        event.encode_with_order(buffer.as_mut_slice(), self.byte_order);
        buffer
    }

    /// Encode Expose event (event code 12)
    /// Sent when a window region needs to be redrawn
    pub fn encode_expose_event(
        &self,
        sequence: u16,
        window: Window,
        x: u16,
        y: u16,
        width: u16,
        height: u16,
        count: u16,
    ) -> (r: Vec<u8>)
        ensures
            r@ == expose_event_bytes(
                self.spec_byte_order(),
                sequence,
                window,
                x,
                y,
                width,
                height,
                count,
            ),
    {
        self.encode_event(&Event::Expose(ExposeEvent { sequence, window, x, y, width, height, count }))
    }

    /// Encode MapNotify event (event code 19)
    /// Sent when a window is mapped
    pub fn encode_map_notify_event(
        &self,
        sequence: u16,
        event: Window,
        window: Window,
        override_redirect: bool,
    ) -> (r: Vec<u8>)
        ensures
            r@ == map_notify_event_bytes(
                self.spec_byte_order(),
                sequence,
                event,
                window,
                override_redirect,
            ),
    {
        self.encode_event(&Event::MapNotify(MapNotifyEvent { sequence, event, window, override_redirect }))
    }
}

} // verus!
