use x11anywhere::protocol::errors::{ErrorCode, X11Error};
use x11anywhere::protocol::parser::{ProtocolParser, Request};
use x11anywhere::protocol::requests::{RequestHeader, RequestOpcode, RequestReader};
use x11anywhere::protocol::setup::{
    Format, SetupFailed, SetupRequest, SetupResponse, SetupSuccess,
};
use x11anywhere::protocol::types::{ByteOrder, Drawable, Window, WindowClass, XID};
use x11anywhere::protocol::wire::{read_u16_at, read_u32_at};
use x11anywhere::protocol::{pad, padded_len};

#[test]
fn padding() {
    assert_eq!(pad(0), 0);
    assert_eq!(pad(1), 3);
    assert_eq!(pad(2), 2);
    assert_eq!(pad(3), 1);
    assert_eq!(pad(4), 0);
    assert_eq!(padded_len(5), 8);
    assert_eq!(padded_len(8), 8);
}

#[test]
fn native_byte_order() {
    let expected = if u16::from_ne_bytes([1, 0]) == 1 { ByteOrder::LSBFirst } else { ByteOrder::MSBFirst };
    assert_eq!(ByteOrder::native(), expected);
    assert_eq!(ByteOrder::LSBFirst.code(), 0);
    assert_eq!(ByteOrder::MSBFirst.code(), 1);
}

#[test]
fn wire_reads() {
    let b = [1u8, 2, 3, 4];
    assert_eq!(read_u16_at(ByteOrder::MSBFirst, &b, 0), 0x0102);
    assert_eq!(read_u16_at(ByteOrder::LSBFirst, &b, 2), 0x0403);
    assert_eq!(read_u32_at(ByteOrder::MSBFirst, &b, 0), 0x0102_0304);
    assert_eq!(read_u32_at(ByteOrder::LSBFirst, &b, 0), 0x0403_0201);
}

#[test]
fn error_codes_round_trip() {
    for code in 1u8..=17 {
        assert_eq!(ErrorCode::from_u8(code).unwrap().code(), code);
    }
    assert_eq!(ErrorCode::from_u8(0), None);
    assert_eq!(ErrorCode::from_u8(18), None);
    assert_eq!(ErrorCode::Window.as_str(), "Window: invalid Window parameter");
    assert_eq!(ErrorCode::Implementation.code(), 17);
}

#[test]
fn error_packets() {
    let e = X11Error::bad_window(0x0102, Window::new(0x0a0b0c0d), 4);
    assert_eq!(e.code, ErrorCode::Window);
    let bytes = e.to_bytes(ByteOrder::MSBFirst);
    assert_eq!(bytes.len(), 32);
    assert_eq!(&bytes[0..12], &[0, 3, 1, 2, 0x0a, 0x0b, 0x0c, 0x0d, 0, 0, 4, 0]);
    assert!(bytes[11..].iter().all(|b| *b == 0));
    let mut buf = [0xffu8; 40];
    X11Error::bad_length(1, 8).encode_with_order(&mut buf, ByteOrder::LSBFirst);
    assert_eq!(&buf[0..11], &[0, 16, 1, 0, 0, 0, 0, 0, 0, 0, 8]);
    assert_eq!(buf[32], 0xff);
    assert_eq!(X11Error::implementation_error(2, 9).code, ErrorCode::Implementation);
}

#[test]
fn opcodes() {
    assert_eq!(RequestOpcode::from_u8(1), Some(RequestOpcode::CreateWindow));
    assert_eq!(RequestOpcode::from_u8(127), Some(RequestOpcode::NoOperation));
    assert_eq!(RequestOpcode::CreateWindow.as_str(), "CreateWindow");
    assert_eq!(RequestOpcode::from_u8(0), None);
}

#[test]
fn request_header() {
    let h = RequestHeader::parse_with_order(&[4, 0, 0, 2, 9, 9, 9, 9], ByteOrder::MSBFirst).unwrap();
    assert_eq!(h, RequestHeader { opcode: 4, detail: 0, length: 2 });
    assert_eq!(h.size(), 8);
    assert!(RequestHeader::parse(&[1, 2, 3]).is_err());
}

#[test]
fn request_reader() {
    let data = 0x0102u16.to_ne_bytes();
    let mut bytes = vec![7u8];
    bytes.extend_from_slice(&data);
    bytes.extend_from_slice(&0x0a0b0c0du32.to_ne_bytes());
    let mut r = RequestReader::new(&bytes);
    assert_eq!(r.read_u8(), 7);
    assert_eq!(r.read_u16(), 0x0102);
    assert_eq!(r.read_u32(), 0x0a0b0c0d);
    assert!(r.remaining().is_empty());
}

fn msb_request(opcode: u8, detail: u8, body: &[u8]) -> Vec<u8> {
    let len = ((4 + body.len()) / 4) as u16;
    let mut v = vec![opcode, detail];
    v.extend_from_slice(&len.to_be_bytes());
    v.extend_from_slice(body);
    v
}

#[test]
fn parse_create_window_with_values() {
    let mut body = Vec::new();
    body.extend_from_slice(&0x0040_0001u32.to_be_bytes()); // wid
    body.extend_from_slice(&1u32.to_be_bytes()); // parent
    body.extend_from_slice(&(-5i16).to_be_bytes());
    body.extend_from_slice(&6i16.to_be_bytes());
    body.extend_from_slice(&200u16.to_be_bytes());
    body.extend_from_slice(&100u16.to_be_bytes());
    body.extend_from_slice(&2u16.to_be_bytes()); // border
    body.extend_from_slice(&1u16.to_be_bytes()); // InputOutput
    body.extend_from_slice(&0x21u32.to_be_bytes()); // visual
    body.extend_from_slice(&0x0000_0802u32.to_be_bytes()); // background pixel, event mask
    body.extend_from_slice(&0x00ff_ffffu32.to_be_bytes());
    body.extend_from_slice(&0x0000_8000u32.to_be_bytes());
    let bytes = msb_request(1, 24, &body);
    let parser = ProtocolParser::new(ByteOrder::MSBFirst);
    assert!(parser.request_in_bounds(&bytes));
    let (req, length) = parser.parse_request(&bytes).unwrap();
    assert_eq!(length as usize * 4, bytes.len());
    match req {
        Request::CreateWindow(r) => {
            assert_eq!(r.depth, 24);
            assert_eq!(r.wid, Window::new(0x0040_0001));
            assert_eq!((r.x, r.y, r.width, r.height, r.border_width), (-5, 6, 200, 100, 2));
            assert_eq!(r.class, WindowClass::InputOutput);
            assert_eq!(r.background_pixel, Some(0x00ff_ffff));
            assert_eq!(r.border_pixel, None);
            assert_eq!(r.event_mask, Some(0x8000));
            assert_eq!(r.cursor, None);
        }
        other => panic!("unexpected {:?}", other),
    }
}

#[test]
fn parse_errors() {
    let parser = ProtocolParser::new(ByteOrder::MSBFirst);
    // The declared length is longer than the buffer
    let e = parser.parse_request(&[4, 0, 0, 3, 0, 0, 0, 1]).unwrap_err();
    assert_eq!(e.code, ErrorCode::Length);
    // A request that the parser does not handle
    let e = parser.parse_request(&msb_request(95, 0, &[0, 0, 0, 1])).unwrap_err();
    assert_eq!(e.code, ErrorCode::Implementation);
    assert_eq!(e.major_opcode, 95);
    // A window class that does not exist
    let mut body = vec![0u8; 28];
    body[19] = 9;
    let e = parser.parse_request(&msb_request(1, 0, &body)).unwrap_err();
    assert_eq!(e.code, ErrorCode::Value);
}

#[test]
fn parse_simple_requests() {
    let parser = ProtocolParser::new(ByteOrder::LSBFirst);
    let (req, _) = parser.parse_request(&[14, 0, 2, 0, 9, 0, 0, 0]).unwrap();
    match req {
        Request::GetGeometry(r) => assert_eq!(r.drawable, Drawable::Window(Window(XID(9)))),
        other => panic!("unexpected {:?}", other),
    }
    let (req, _) = parser.parse_request(&[127, 0, 1, 0]).unwrap();
    assert!(matches!(req, Request::NoOperation));
}

#[test]
fn parse_intern_atom_decodes_name() {
    let parser = ProtocolParser::new(ByteOrder::MSBFirst);
    let body = [0u8, 4, 0, 0, b'W', b'M', 0xff, b'S'];
    let (req, _) = parser.parse_request(&msb_request(16, 1, &body)).unwrap();
    match req {
        Request::InternAtom(r) => {
            assert!(r.only_if_exists);
            assert_eq!(r.name, "WM\u{fffd}S");
        }
        other => panic!("unexpected {:?}", other),
    }
}

fn setup_bytes(order: u8) -> Vec<u8> {
    // 'l': little-endian; name "MIT-MAGIC-COOKIE-1" (18 bytes), 16 data bytes
    let mut v = vec![order, 0, 11, 0, 0, 0, 18, 0, 16, 0, 0, 0];
    v.extend_from_slice(b"MIT-MAGIC-COOKIE-1");
    v.extend_from_slice(&[0, 0]);
    v.extend((0u8..16).collect::<Vec<u8>>());
    v
}

#[test]
fn setup_request() {
    let bytes = setup_bytes(b'l');
    assert_eq!(SetupRequest::remaining_len(&bytes[..12]).unwrap(), 20 + 16);
    let req = SetupRequest::parse(&bytes).unwrap();
    assert_eq!(req.byte_order, ByteOrder::LSBFirst);
    assert_eq!(req.protocol_major_version, 11);
    assert_eq!(req.authorization_protocol_name, "MIT-MAGIC-COOKIE-1");
    assert_eq!(req.authorization_protocol_data, (0u8..16).collect::<Vec<u8>>());
    assert_eq!(SetupRequest::parse(&bytes[..30]).unwrap_err().code, ErrorCode::Length);
    assert_eq!(SetupRequest::parse(&setup_bytes(b'x')).unwrap_err().code, ErrorCode::Request);
    assert_eq!(SetupRequest::parse(&bytes[..5]).unwrap_err().code, ErrorCode::Length);
}

#[test]
fn setup_request_name_is_decoded_lossily() {
    let mut bytes = vec![b'B', 0, 0, 11, 0, 0, 0, 2, 0, 0, 0, 0];
    bytes.extend_from_slice(&[0xc3, 0x28, 0, 0]);
    let req = SetupRequest::parse(&bytes).unwrap();
    assert_eq!(req.authorization_protocol_name, "\u{fffd}(");
}

#[test]
fn setup_replies() {
    let failed = SetupFailed { protocol_major_version: 11, protocol_minor_version: 0, reason: "no".to_string() };
    let bytes = SetupResponse::Failed(failed).encode(ByteOrder::MSBFirst);
    assert_eq!(bytes, vec![0, 2, 0, 11, 0, 0, 0, 1, b'n', b'o', 0, 0]);

    let success = SetupSuccess {
        protocol_major_version: 11,
        protocol_minor_version: 0,
        release_number: 1,
        resource_id_base: 0x0040_0000,
        resource_id_mask: 0x001f_ffff,
        motion_buffer_size: 256,
        maximum_request_length: 65535,
        image_byte_order: ByteOrder::LSBFirst,
        bitmap_format_bit_order: ByteOrder::LSBFirst,
        bitmap_format_scanline_unit: 32,
        bitmap_format_scanline_pad: 32,
        min_keycode: 8,
        max_keycode: 255,
        vendor: "X11Anywhere".to_string(),
        pixmap_formats: vec![Format { depth: 24, bits_per_pixel: 32, scanline_pad: 32 }],
        roots: vec![],
    };
    let bytes = success.encode(ByteOrder::LSBFirst);
    // 8 header bytes, 32 fixed bytes, 12 vendor bytes, 8 format bytes
    assert_eq!(bytes.len(), 8 + 32 + 12 + 8);
    assert_eq!(bytes[0], 1);
    assert_eq!(u16::from_le_bytes([bytes[6], bytes[7]]) as usize * 4 + 8, bytes.len());
    assert_eq!(&bytes[40..51], b"X11Anywhere");
    assert_eq!(&bytes[52..55], &[24, 32, 32]);
}

#[test]
fn errors_and_ids_as_text() {
    assert_eq!(XID(0x1a).to_string(), "0x0000001a");
    assert_eq!(XID(0xdead_beef).to_string(), "0xdeadbeef");
    assert_eq!(ErrorCode::Window.to_string(), ErrorCode::Window.as_str());
    let e = X11Error::bad_window(7, Window(XID(0x0040_0001)), 8);
    assert_eq!(
        e.to_string(),
        "X11 Error: Window: invalid Window parameter (sequence: 7, value: 0x00400001, major: 8, minor: 0)"
    );
    let e = X11Error::new(ErrorCode::Length, 65535, 0xffff_ffff, 300, 255);
    assert_eq!(
        e.to_string(),
        format!(
            "X11 Error: {} (sequence: {}, value: 0x{:08x}, major: {}, minor: {})",
            ErrorCode::Length.as_str(),
            65535,
            0xffff_ffffu32,
            255,
            300
        )
    );
}

#[test]
fn short_create_window_with_bad_class() {
    // A CreateWindow whose data stops after the visual: the class is checked first
    let parser = ProtocolParser::new(ByteOrder::MSBFirst);
    let mut body = vec![0u8; 20];
    body[19] = 5;
    let e = parser.parse_request(&msb_request(1, 0, &body)).unwrap_err();
    assert_eq!(e.code, ErrorCode::Value);
    assert_eq!(e.major_opcode, 1);
}

#[test]
fn a_request_ignores_what_follows_it() {
    let parser = ProtocolParser::new(ByteOrder::LSBFirst);
    let alone = [14u8, 0, 2, 0, 9, 0, 0, 0];
    let mut followed = alone.to_vec();
    followed.extend_from_slice(&[1, 2, 3, 4, 5]);
    let (a, la) = parser.parse_request(&alone).unwrap();
    let (b, lb) = parser.parse_request(&followed).unwrap();
    assert_eq!(la, lb);
    assert_eq!(format!("{:?}", a), format!("{:?}", b));
}

#[test]
fn opcode_numbers() {
    for n in 0..=255u8 {
        if let Some(op) = RequestOpcode::from_u8(n) {
            assert_eq!(op.code(), n);
        }
    }
    assert_eq!(RequestOpcode::AllocColor.code(), 84);
    assert_eq!(RequestOpcode::NoOperation.code(), 127);
}

#[test]
fn error_descriptions_start_with_their_names() {
    assert!(ErrorCode::Length.as_str().starts_with("Length: "));
    assert!(ErrorCode::IDChoice.as_str().starts_with("IDChoice: "));
    let texts: Vec<&str> = (1..=17u8).map(|n| ErrorCode::from_u8(n).unwrap().as_str()).collect();
    for i in 0..texts.len() {
        for j in 0..i {
            assert_ne!(texts[i], texts[j]);
        }
    }
}
