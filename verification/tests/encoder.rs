use x11anywhere::protocol::encoder::ProtocolEncoder;
use x11anywhere::protocol::types::{
    Atom, BackingStore, ByteOrder, Colormap, MapState, VisualID, Window, WindowClass,
};

fn msb() -> ProtocolEncoder {
    ProtocolEncoder::new(ByteOrder::MSBFirst)
}

fn lsb() -> ProtocolEncoder {
    ProtocolEncoder::new(ByteOrder::LSBFirst)
}

fn length_field(bytes: &[u8]) -> usize {
    u32::from_be_bytes([bytes[4], bytes[5], bytes[6], bytes[7]]) as usize
}

#[test]
fn void_reply() {
    let r = msb().encode_void_reply(0x0102);
    assert_eq!(r.len(), 32);
    assert_eq!(&r[0..4], &[1, 0, 1, 2]);
    assert!(r[4..].iter().all(|b| *b == 0));
    let r = lsb().encode_void_reply(0x0102);
    assert_eq!(&r[2..4], &[2, 1]);
}

#[test]
fn intern_atom_reply() {
    let r = msb().encode_intern_atom_reply(5, Atom::new(0x0a0b0c0d));
    assert_eq!(r.len(), 32);
    assert_eq!(&r[0..12], &[1, 0, 0, 5, 0, 0, 0, 0, 0x0a, 0x0b, 0x0c, 0x0d]);
}

#[test]
fn get_window_attributes_reply() {
    let r = msb().encode_get_window_attributes_reply(
        3,
        VisualID::new(0x21),
        WindowClass::InputOutput,
        1,
        BackingStore::Always,
        0xffff_ffff,
        0,
        true,
        false,
        MapState::Viewable,
        true,
        Colormap::new(0x20),
        0x00ff,
        0x0f,
        0x0102,
    );
    assert_eq!(r.len(), 44);
    assert_eq!(length_field(&r), 3);
    assert_eq!(r[1], 2);
    assert_eq!(&r[8..12], &[0, 0, 0, 0x21]);
    assert_eq!(&r[12..14], &[0, 1]);
    assert_eq!(r[14], 1);
    assert_eq!(r[15], 2);
    assert_eq!(&r[24..28], &[1, 0, 2, 1]);
    assert_eq!(&r[28..32], &[0, 0, 0, 0x20]);
    assert_eq!(&r[40..44], &[1, 2, 0, 0]);
}

#[test]
fn get_geometry_reply() {
    let r = lsb().encode_get_geometry_reply(9, 24, Window::new(1), -2, 3, 640, 480, 1);
    assert_eq!(r.len(), 32);
    assert_eq!(r[1], 24);
    assert_eq!(&r[8..22], &[1, 0, 0, 0, 0xfe, 0xff, 3, 0, 0x80, 2, 0xe0, 1, 1, 0]);
}

#[test]
fn query_tree_reply() {
    let children = [Window::new(5), Window::new(6)];
    let r = msb().encode_query_tree_reply(1, Window::new(1), Window::new(0), &children);
    assert_eq!(r.len(), 40);
    assert_eq!(length_field(&r), 2);
    assert_eq!(&r[16..18], &[0, 2]);
    assert_eq!(&r[32..40], &[0, 0, 0, 5, 0, 0, 0, 6]);
}

#[test]
fn get_atom_name_reply_pads_name() {
    let r = msb().encode_get_atom_name_reply(1, "PRIMARY");
    assert_eq!(r.len(), 40);
    assert_eq!(length_field(&r), 2);
    assert_eq!(&r[8..10], &[0, 7]);
    assert_eq!(&r[32..39], b"PRIMARY");
    assert_eq!(r[39], 0);
}

#[test]
fn get_property_reply_counts_by_format() {
    let value = [1u8, 2, 3, 4, 5, 6];
    let r = msb().encode_get_property_reply(1, 16, Atom::new(31), 0, &value);
    assert_eq!(r.len(), 40);
    assert_eq!(length_field(&r), 2);
    assert_eq!(r[1], 16);
    assert_eq!(&r[16..20], &[0, 0, 0, 3]);
    assert_eq!(&r[32..38], &value);
    let r = msb().encode_get_property_reply(1, 32, Atom::new(31), 0, &value);
    assert_eq!(&r[16..20], &[0, 0, 0, 1]);
    let r = msb().encode_get_property_reply(1, 8, Atom::new(31), 0, &value);
    assert_eq!(&r[16..20], &[0, 0, 0, 6]);
    let r = msb().encode_get_property_reply(1, 7, Atom::new(31), 0, &value);
    assert_eq!(&r[16..20], &[0, 0, 0, 0]);
}

#[test]
fn small_replies() {
    let r = msb().encode_query_extension_reply(1, true, 130, 64, 128);
    assert_eq!(&r[8..12], &[1, 130, 64, 128]);
    let r = msb().encode_get_input_focus_reply(1, Window::new(7), 2);
    assert_eq!(r[1], 2);
    assert_eq!(&r[8..12], &[0, 0, 0, 7]);
    let r = msb().encode_alloc_color_reply(1, 0x00ff_0000, 0xffff, 0, 0);
    assert_eq!(&r[8..20], &[0xff, 0xff, 0, 0, 0, 0, 0, 0, 0, 0xff, 0, 0]);
    let r = msb().encode_alloc_named_color_reply(1, 5, 1, 2, 3, 4, 5, 6);
    assert_eq!(&r[8..24], &[0, 0, 0, 5, 0, 1, 0, 2, 0, 3, 0, 4, 0, 5, 0, 6]);
    let r = msb().encode_grab_pointer_reply(1, 1);
    assert_eq!(r[1], 1);
    let r = msb().encode_grab_keyboard_reply(1, 3);
    assert_eq!(r[1], 3);
    let r = msb().encode_get_screen_saver_reply(1, 600, 5, 1, 2);
    assert_eq!(&r[8..14], &[2, 0x58, 0, 5, 1, 2]);
    for reply in [
        msb().encode_query_extension_reply(1, false, 0, 0, 0),
        msb().encode_get_input_focus_reply(1, Window::new(7), 2),
        msb().encode_alloc_color_reply(1, 0, 0, 0, 0),
        msb().encode_alloc_named_color_reply(1, 5, 1, 2, 3, 4, 5, 6),
        msb().encode_grab_pointer_reply(1, 1),
        msb().encode_get_screen_saver_reply(1, 600, 5, 1, 2),
    ] {
        assert_eq!(reply.len(), 32);
        assert_eq!(reply[0], 1);
        assert_eq!(length_field(&reply), 0);
    }
}

#[test]
fn query_font_reply() {
    let r = msb().encode_query_font_reply(1, 10, 3, 8, 13);
    assert_eq!(r.len(), 60);
    assert_eq!(length_field(&r), 7);
    assert!(r[8..24].iter().all(|b| *b == 0));
    assert_eq!(&r[24..36], &[0, 0, 0, 8, 0, 8, 0, 10, 0, 3, 0, 0]);
    assert_eq!(&r[40..52], &[0, 0, 0, 255, 0, 0, 0, 0, 0, 0, 0, 1]);
    assert_eq!(&r[52..60], &[0, 10, 0, 3, 0, 0, 0, 0]);
}

#[test]
fn list_fonts_reply() {
    let names = vec!["fixed".to_string(), "cursor".to_string()];
    let r = msb().encode_list_fonts_reply(4, &names);
    // 1+5 + 1+6 = 13 bytes of names, padded to 16
    assert_eq!(r.len(), 48);
    assert_eq!(length_field(&r), 4);
    assert_eq!(&r[8..10], &[0, 2]);
    assert_eq!(r[32], 5);
    assert_eq!(&r[33..38], b"fixed");
    assert_eq!(r[38], 6);
    assert_eq!(&r[39..45], b"cursor");
    assert_eq!(&r[45..48], &[0, 0, 0]);
}

#[test]
fn list_names_are_cut_to_255_bytes() {
    let long = "x".repeat(300);
    let r = msb().encode_list_extensions_reply(1, &[long]);
    assert_eq!(r[1], 1);
    assert_eq!(r[32], 255);
    assert_eq!(r.len(), 32 + 256);
    assert_eq!(length_field(&r), 64);
}

#[test]
fn list_extensions_reply_empty() {
    let r = lsb().encode_list_extensions_reply(2, &[]);
    assert_eq!(r.len(), 32);
    assert_eq!(r[1], 0);
    assert_eq!(&r[4..8], &[0, 0, 0, 0]);
}

#[test]
fn pointer_replies() {
    let r = msb().encode_query_pointer_reply(1, true, Window::new(1), Window::new(2), 10, -10, 5, 6, 0x100);
    assert_eq!(r[1], 1);
    assert_eq!(&r[8..26], &[0, 0, 0, 1, 0, 0, 0, 2, 0, 10, 0xff, 0xf6, 0, 5, 0, 6, 1, 0]);
    let r = msb().encode_translate_coordinates_reply(1, false, Window::new(3), -1, 2);
    assert_eq!(r[1], 0);
    assert_eq!(&r[8..16], &[0, 0, 0, 3, 0xff, 0xff, 0, 2]);
}

#[test]
fn query_keymap_reply() {
    let mut keys = [0u8; 32];
    keys[31] = 0x80;
    let r = msb().encode_query_keymap_reply(1, &keys);
    assert_eq!(r.len(), 40);
    assert_eq!(length_field(&r), 2);
    assert_eq!(r[39], 0x80);
}

#[test]
fn event_encoders() {
    let r = msb().encode_expose_event(3, Window::new(9), 1, 2, 3, 4, 5);
    assert_eq!(r.len(), 32);
    assert_eq!(&r[0..18], &[12, 0, 0, 3, 0, 0, 0, 9, 0, 1, 0, 2, 0, 3, 0, 4, 0, 5]);
    let r = lsb().encode_map_notify_event(3, Window::new(1), Window::new(9), true);
    assert_eq!(&r[0..13], &[19, 0, 3, 0, 1, 0, 0, 0, 9, 0, 0, 0, 1]);
    assert!(r[13..].iter().all(|b| *b == 0));
}
