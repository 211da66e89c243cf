use x11anywhere::backend::traits::{BackendDrawable, BackendGC, BackendWindow, WindowParams};
use x11anywhere::backend::x11::{
    auth_display_number, display_number, handshake_request, image_reply, list_fonts_reply, parse_setup_success, parse_xlfd,
    reply_data_len, setup_outcome, setup_reply_data_len, xauthority_entry,
};
use x11anywhere::backend::x11_requests::{
    create_gc_request, create_window_request, map_window_request, open_font_request,
    rectangle_request, restack_window_request, set_title_request, system_fonts_request,
};
use x11anywhere::backend::x11_session::X11Session;
use x11anywhere::protocol::encoder::ProtocolEncoder;
use x11anywhere::protocol::parser::{ProtocolParser, Request};
use x11anywhere::protocol::setup::{
    Depth, Format, Screen, SetupRequest, SetupSuccess, VisualType,
};
use x11anywhere::protocol::types::{ByteOrder, Colormap, Point, VisualID, Window, WindowClass};

fn sample_setup() -> SetupSuccess {
    SetupSuccess {
        protocol_major_version: 11,
        protocol_minor_version: 0,
        release_number: 12_000_000,
        resource_id_base: 0x0060_0000,
        resource_id_mask: 0x001f_ffff,
        motion_buffer_size: 256,
        maximum_request_length: 65535,
        image_byte_order: ByteOrder::LSBFirst,
        bitmap_format_bit_order: ByteOrder::MSBFirst,
        bitmap_format_scanline_unit: 32,
        bitmap_format_scanline_pad: 32,
        min_keycode: 8,
        max_keycode: 255,
        vendor: "The X.Org Foundation".to_string(),
        pixmap_formats: vec![
            Format { depth: 1, bits_per_pixel: 1, scanline_pad: 32 },
            Format { depth: 24, bits_per_pixel: 32, scanline_pad: 32 },
        ],
        roots: vec![Screen {
            root: Window::new(0x1d8),
            default_colormap: Colormap::new(0x20),
            white_pixel: 0xffffff,
            black_pixel: 0,
            current_input_masks: 0x00fa_0000,
            width_in_pixels: 1920,
            height_in_pixels: 1080,
            width_in_millimeters: 508,
            height_in_millimeters: 285,
            min_installed_maps: 1,
            max_installed_maps: 1,
            root_visual: VisualID::new(0x21),
            backing_stores: 0,
            save_unders: false,
            root_depth: 24,
            allowed_depths: vec![
                Depth { depth: 24, visuals: vec![VisualType {
                    visual_id: VisualID::new(0x21),
                    class: 4,
                    bits_per_rgb_value: 8,
                    colormap_entries: 256,
                    red_mask: 0xff0000,
                    green_mask: 0xff00,
                    blue_mask: 0xff,
                }] },
                Depth { depth: 1, visuals: vec![] },
            ],
        }],
    }
}

#[test]
fn setup_reply_is_read_back() {
    let bytes = sample_setup().encode(ByteOrder::LSBFirst);
    assert_eq!(setup_reply_data_len(&bytes[..8]), bytes.len() - 8);
    let s = parse_setup_success(&bytes[..8], &bytes[8..]).unwrap();
    let expected = sample_setup();
    assert_eq!(s.release_number, expected.release_number);
    assert_eq!(s.resource_id_base, 0x0060_0000);
    assert_eq!(s.resource_id_mask, 0x001f_ffff);
    assert_eq!(s.bitmap_format_bit_order, ByteOrder::MSBFirst);
    assert_eq!(s.vendor, "The X.Org Foundation");
    assert_eq!(s.pixmap_formats.len(), 2);
    assert_eq!(s.pixmap_formats[1].bits_per_pixel, 32);
    assert_eq!(s.roots.len(), 1);
    let screen = &s.roots[0];
    assert_eq!(screen.root, Window::new(0x1d8));
    assert_eq!((screen.width_in_pixels, screen.height_in_pixels), (1920, 1080));
    assert_eq!(screen.allowed_depths.len(), 2);
    assert_eq!(screen.allowed_depths[0].visuals.len(), 1);
    assert_eq!(screen.allowed_depths[0].visuals[0].red_mask, 0xff0000);
    assert_eq!(screen.allowed_depths[1].visuals.len(), 0);
}

#[test]
fn setup_reply_cut_short_keeps_what_is_there() {
    let bytes = sample_setup().encode(ByteOrder::LSBFirst);
    // Keep the fixed part, the vendor and one format
    let cut = 8 + 32 + 20 + 8;
    let s = parse_setup_success(&bytes[..8], &bytes[8..cut]).unwrap();
    assert_eq!(s.vendor, "The X.Org Foundation");
    assert_eq!(s.pixmap_formats.len(), 1);
    assert!(s.roots.is_empty());
    // Without a byte after it, the vendor is not taken
    let s = parse_setup_success(&bytes[..8], &bytes[8..8 + 52]).unwrap();
    assert_eq!(s.vendor, "");
}

#[test]
fn setup_refusal() {
    let header = [0u8, 6, 11, 0, 0, 0, 2, 0];
    let data = b"no way\0\0";
    let e = setup_outcome(&header, data).unwrap_err();
    assert_eq!(e.message, "X server rejected connection: no way");
}

#[test]
fn handshake_is_a_setup_request() {
    let req = handshake_request("MIT-MAGIC-COOKIE-1", &[1, 2, 3, 4, 5]);
    assert_eq!(&req[0..12], &[b'l', 0, 11, 0, 0, 0, 18, 0, 5, 0, 0, 0]);
    assert_eq!(req.len(), 12 + 20 + 8);
    let parsed = SetupRequest::parse(&req).unwrap();
    assert_eq!(parsed.byte_order, ByteOrder::LSBFirst);
    assert_eq!(parsed.authorization_protocol_name, "MIT-MAGIC-COOKIE-1");
    assert_eq!(parsed.authorization_protocol_data, vec![1, 2, 3, 4, 5]);
}

fn xauth_entry(family: u16, number: &str, name: &str, data: &[u8]) -> Vec<u8> {
    let mut v = Vec::new();
    v.extend_from_slice(&family.to_be_bytes());
    for field in [b"host".as_slice(), number.as_bytes(), name.as_bytes(), data] {
        v.extend_from_slice(&(field.len() as u16).to_be_bytes());
        v.extend_from_slice(field);
    }
    v
}

#[test]
fn xauthority_lookup() {
    let mut file = xauth_entry(0x0100, "0", "MIT-MAGIC-COOKIE-1", &[9; 16]);
    file.extend(xauth_entry(0x0100, "12", "MIT-MAGIC-COOKIE-1", &[7; 16]));
    file.extend(xauth_entry(0x0006, "3", "OTHER", &[1]));
    let (name, data) = xauthority_entry(&file, 12);
    assert_eq!(name, "MIT-MAGIC-COOKIE-1");
    assert_eq!(data, vec![7; 16]);
    let (name, data) = xauthority_entry(&file, 0);
    assert_eq!(data, vec![9; 16]);
    assert_eq!(name.len(), 18);
    // Wrong family
    assert_eq!(xauthority_entry(&file, 3), (String::new(), Vec::new()));
    // No entry, and an entry cut short
    assert_eq!(xauthority_entry(&file, 5), (String::new(), Vec::new()));
    assert_eq!(xauthority_entry(&file[..10], 0), (String::new(), Vec::new()));
}

#[test]
fn reply_headers() {
    let mut h = [0u8; 32];
    h[0] = 1;
    h[4] = 3;
    assert_eq!(reply_data_len(&h).unwrap(), 12);
    h[0] = 0;
    h[1] = 9;
    assert_eq!(reply_data_len(&h).unwrap_err().message, "X11 error: code=9");
    h[0] = 35;
    assert_eq!(reply_data_len(&h).unwrap_err().message, "Unexpected reply type: 35");
}

#[test]
fn image_replies() {
    let mut reply = vec![1u8, 24, 0, 0, 1, 0, 0, 0, 0x21, 0, 0, 0];
    reply.resize(32, 0);
    reply.extend_from_slice(&[1, 2, 3, 4]);
    let (depth, visual, data) = image_reply(&reply).unwrap();
    assert_eq!((depth, visual), (24, 0x21));
    assert_eq!(data, vec![1, 2, 3, 4]);
    assert!(image_reply(&reply[..20]).is_err());
}

#[test]
fn xlfd_names() {
    let f = parse_xlfd("-misc-fixed-medium-r-normal--13-120-75-75-c-80-iso8859-1").unwrap();
    assert_eq!(f.family, "fixed");
    assert_eq!(f.weight, "medium");
    assert_eq!(f.slant, "r");
    assert_eq!((f.pixel_size, f.point_size, f.char_width), (13, 120, 80));
    assert_eq!((f.ascent, f.descent), (9, 3));
    assert_eq!(f.registry, "iso8859");
    assert_eq!(f.encoding, "1");
    let f = parse_xlfd("-*-*-*-*-*-*-*-*-*-*-*-*-*-*").unwrap();
    assert_eq!((f.pixel_size, f.ascent, f.descent), (0, 10, 3));
    assert!(parse_xlfd("fixed").is_none());
}

#[test]
fn font_list_from_our_own_reply() {
    let names = vec![
        "-misc-fixed-bold-r-normal--13-120-75-75-c-80-iso8859-1".to_string(),
        "cursor".to_string(),
        "-adobe-helvetica-medium-r-normal--12-120-75-75-p-67-iso8859-1".to_string(),
    ];
    let reply = ProtocolEncoder::new(ByteOrder::LSBFirst).encode_list_fonts_reply(1, &names);
    let fonts = list_fonts_reply(&reply).unwrap();
    assert_eq!(fonts.len(), 2);
    assert_eq!(fonts[0].weight, "bold");
    assert_eq!(fonts[1].family, "helvetica");
    assert!(list_fonts_reply(&reply[..10]).is_err());
}

#[test]
fn request_bytes() {
    assert_eq!(map_window_request(0x0102_0304), vec![8, 0, 2, 0, 4, 3, 2, 1]);
    assert_eq!(restack_window_request(5, 1), vec![12, 0, 4, 0, 5, 0, 0, 0, 0x40, 0, 0, 0, 1, 0, 0, 0]);
    let gc = BackendGC::default();
    let r = create_gc_request(7, 8, &gc, None);
    assert_eq!(r.len(), 24);
    assert_eq!(&r[0..4], &[55, 0, 6, 0]);
    assert_eq!(&r[12..16], &[0x0c, 0, 0, 0]);
    assert_eq!(&r[20..24], &[0xff, 0xff, 0xff, 0]);
    let r = create_gc_request(7, 8, &gc, Some(3));
    assert_eq!(r.len(), 28);
    assert_eq!(&r[2..4], &[7, 0]);
    assert_eq!(&r[12..16], &[0x0c, 0x40, 0, 0]);
    let r = open_font_request(9, b"fixed");
    assert_eq!(r, vec![45, 0, 5, 0, 9, 0, 0, 0, 5, 0, 0, 0, b'f', b'i', b'x', b'e', b'd', 0, 0, 0]);
    let r = set_title_request(1, "xterm");
    assert_eq!(r.len(), 32);
    assert_eq!(&r[2..4], &[8, 0]);
    assert_eq!(&r[20..24], &[5, 0, 0, 0]);
    let r = system_fonts_request();
    assert_eq!(&r[0..8], &[49, 0, 9, 0, 0xe8, 3, 28, 0]);
    assert_eq!(r.len(), 36);
}

#[test]
fn created_window_reads_back() {
    let params = WindowParams {
        parent: None,
        x: -3,
        y: 4,
        width: 300,
        height: 200,
        border_width: 1,
        class: WindowClass::InputOutput,
        background_pixel: Some(0x00ff_00ff),
        event_mask: 0x8000,
    };
    let bytes = create_window_request(0x0060_0001, 0x1d8, 0x21, &params);
    assert_eq!(bytes.len(), 40);
    let parser = ProtocolParser::new(ByteOrder::LSBFirst);
    assert!(parser.request_in_bounds(&bytes));
    match parser.parse_request(&bytes).unwrap().0 {
        Request::CreateWindow(r) => {
            assert_eq!(r.wid, Window::new(0x0060_0001));
            assert_eq!(r.parent, Window::new(0x1d8));
            assert_eq!((r.x, r.y, r.width, r.height), (-3, 4, 300, 200));
            assert_eq!(r.background_pixel, Some(0x00ff_00ff));
            assert_eq!(r.event_mask, Some(0x8000));
        }
        other => panic!("unexpected {:?}", other),
    }
    let bytes = rectangle_request(70, 1, 2, 3, 4, 5, 6);
    match parser.parse_request(&bytes).unwrap().0 {
        Request::PolyFillRectangle(r) => assert_eq!(r.rectangles.len(), 1),
        other => panic!("unexpected {:?}", other),
    }
}

#[test]
fn session_flow() {
    let mut session = X11Session::new();
    assert!(session.create_window(&WindowParams {
        parent: None,
        x: 0,
        y: 0,
        width: 1,
        height: 1,
        border_width: 0,
        class: WindowClass::InputOutput,
        background_pixel: None,
        event_mask: 0,
    }).is_err());
    session.set_up(sample_setup());
    assert_eq!(session.get_screen_info().unwrap().width, 1920);
    assert_eq!(session.get_visuals().unwrap().len(), 1);
    let (w, wid, req) = session
        .create_window(&WindowParams {
            parent: None,
            x: 0,
            y: 0,
            width: 10,
            height: 10,
            border_width: 0,
            class: WindowClass::InputOutput,
            background_pixel: None,
            event_mask: 0,
        })
        .unwrap();
    // Our handles 1 and 2 were used for the failed call; this window gets 3
    assert_eq!(w, BackendWindow(3));
    assert_eq!(wid, 0x0060_0004);
    assert_eq!(&req[8..12], &[0xd8, 1, 0, 0]);
    assert!(session.map_window(w).is_err());
    session.window_created(w, wid);
    assert_eq!(session.map_window(w).unwrap(), map_window_request(wid));
    let reqs = session
        .fill_rectangle(BackendDrawable::Window(w), &BackendGC::default(), 0, 0, 5, 5)
        .unwrap();
    assert_eq!(reqs.len(), 2);
    assert_eq!(reqs[0][0], 55);
    assert_eq!(reqs[1], rectangle_request(70, wid, 0x0060_0005, 0, 0, 5, 5));
    assert!(session.draw_points(BackendDrawable::Pixmap(9), &BackendGC::default(), &[]).unwrap().is_empty());
    assert!(session.draw_points(BackendDrawable::Pixmap(9), &BackendGC::default(), &[Point { x: 1, y: 1 }]).is_err());
    // No font yet: text is skipped
    assert!(session.draw_text(BackendDrawable::Window(w), &BackendGC::default(), 0, 0, "hi").unwrap().is_empty());
    let (font, req) = session.open_default_font();
    assert_eq!(req[0], 45);
    session.font_opened(font);
    assert_eq!(session.draw_text(BackendDrawable::Window(w), &BackendGC::default(), 0, 0, "hi").unwrap().len(), 2);
    let (p, pid, _) = session.create_pixmap(8, 8, 24).unwrap();
    session.pixmap_created(p, pid);
    assert_eq!(session.free_pixmap(p).unwrap()[0], 54);
    assert_eq!(session.free_pixmap(p).unwrap_err().message, "Pixmap not found");
}

#[test]
fn display_names_give_their_numbers() {
    assert_eq!(display_number(":0"), Some(0));
    assert_eq!(display_number(":1.0"), Some(1));
    assert_eq!(display_number("::12.3.4"), Some(12));
    assert_eq!(display_number("7"), Some(7));
    assert_eq!(display_number("host:0"), None);
    assert_eq!(display_number(":"), None);
    assert_eq!(display_number(":.0"), None);
}

#[test]
fn authorization_display_numbers_default_to_zero() {
    assert_eq!(auth_display_number(":3"), 3);
    assert_eq!(auth_display_number(":1.0"), 0);
    assert_eq!(auth_display_number("host:5"), 0);
    assert_eq!(auth_display_number(""), 0);
}
