use x11anywhere::protocol::events::{
    ClientMessageData, ClientMessageEvent, Event, EventType, ExposeEvent, FocusInEvent,
    KeyPressEvent, MapNotifyEvent,
};
use x11anywhere::protocol::types::{Atom, ByteOrder, Timestamp, Window};

fn key_press() -> KeyPressEvent {
    KeyPressEvent {
        detail: 38,
        sequence: 0x0102,
        time: Timestamp::new(0x0a0b_0c0d),
        root: Window::new(1),
        event: Window::new(2),
        child: Window::new(0),
        root_x: -1,
        root_y: 20,
        event_x: 3,
        event_y: 4,
        state: 0x0011,
        same_screen: true,
    }
}

#[test]
fn key_press_layout_msb() {
    let mut buf = [0xffu8; 32];
    Event::KeyPress(key_press()).encode_with_order(&mut buf, ByteOrder::MSBFirst);
    assert_eq!(buf[0], 2);
    assert_eq!(buf[1], 38);
    assert_eq!(&buf[2..4], &[1, 2]);
    assert_eq!(&buf[4..8], &[0x0a, 0x0b, 0x0c, 0x0d]);
    assert_eq!(&buf[8..12], &[0, 0, 0, 1]);
    assert_eq!(&buf[12..16], &[0, 0, 0, 2]);
    assert_eq!(&buf[16..20], &[0, 0, 0, 0]);
    assert_eq!(&buf[20..22], &[0xff, 0xff]);
    assert_eq!(&buf[22..24], &[0, 20]);
    assert_eq!(&buf[28..30], &[0, 0x11]);
    assert_eq!(buf[30], 1);
    // The event is cleared before it is written
    assert_eq!(buf[31], 0);
}

#[test]
fn expose_leaves_second_byte_clear() {
    let mut buf = [0x55u8; 32];
    let e = ExposeEvent { sequence: 7, window: Window::new(0x10), x: 1, y: 2, width: 3, height: 4, count: 0 };
    Event::Expose(e).encode_with_order(&mut buf, ByteOrder::LSBFirst);
    assert_eq!(buf[0], 12);
    assert_eq!(buf[1], 0);
    assert_eq!(&buf[2..4], &[7, 0]);
    assert_eq!(&buf[4..8], &[0x10, 0, 0, 0]);
    assert_eq!(&buf[8..18], &[1, 0, 2, 0, 3, 0, 4, 0, 0, 0]);
    assert!(buf[18..].iter().all(|b| *b == 0));
}

#[test]
fn struct_encode_writes_only_its_bytes() {
    let mut buf = [0x55u8; 32];
    let e = FocusInEvent { detail: 3, sequence: 9, event: Window::new(4), mode: 1 };
    e.encode_with_order(&mut buf, ByteOrder::MSBFirst);
    assert_eq!(&buf[0..9], &[9, 3, 0, 9, 0, 0, 0, 4, 1]);
    assert!(buf[9..].iter().all(|b| *b == 0x55));
}

#[test]
fn event_type_codes() {
    assert_eq!(Event::KeyPress(key_press()).event_type(), EventType::KeyPress);
    assert_eq!(EventType::KeyPress.code(), 2);
    assert_eq!(EventType::Expose.code(), 12);
    assert_eq!(EventType::MapNotify.code(), 19);
    assert_eq!(EventType::ClientMessage.code(), 33);
    assert_eq!(EventType::MappingNotify.code(), 34);
    let m = MapNotifyEvent { sequence: 1, event: Window::new(1), window: Window::new(2), override_redirect: false };
    assert_eq!(Event::MapNotify(m).event_type().code(), 19);
}

#[test]
fn every_encoded_event_starts_with_its_code() {
    let events = vec![
        Event::KeyPress(key_press()),
        Event::FocusIn(FocusInEvent { detail: 0, sequence: 0, event: Window::new(1), mode: 0 }),
        Event::Expose(ExposeEvent { sequence: 0, window: Window::new(1), x: 0, y: 0, width: 1, height: 1, count: 0 }),
    ];
    for e in events {
        let mut buf = [0u8; 40];
        e.encode(&mut buf);
        assert_eq!(buf[0], e.event_type().code());
    }
}

#[test]
fn client_message_data() {
    let e = ClientMessageEvent {
        sequence: 1,
        format: 32,
        window: Window::new(5),
        type_: Atom::new(0x99),
        data: ClientMessageData::Data32([1, 2, 3, 4, 0x0102_0304]),
    };
    let mut buf = [0u8; 32];
    Event::ClientMessage(e).encode_with_order(&mut buf, ByteOrder::MSBFirst);
    assert_eq!(&buf[0..2], &[33, 32]);
    assert_eq!(&buf[8..12], &[0, 0, 0, 0x99]);
    assert_eq!(&buf[12..16], &[0, 0, 0, 1]);
    assert_eq!(&buf[28..32], &[1, 2, 3, 4]);

    let e16 = ClientMessageEvent {
        sequence: 1,
        format: 16,
        window: Window::new(5),
        type_: Atom::new(1),
        data: ClientMessageData::Data16([0x0102; 10]),
    };
    let mut buf = [0u8; 32];
    e16.encode_with_order(&mut buf, ByteOrder::LSBFirst);
    assert_eq!(&buf[12..16], &[2, 1, 2, 1]);

    let mut bytes = [0u8; 20];
    bytes[19] = 7;
    let e8 = ClientMessageEvent { sequence: 1, format: 8, window: Window::new(5), type_: Atom::new(1), data: ClientMessageData::Data8(bytes) };
    let mut buf = [0u8; 32];
    e8.encode(&mut buf);
    assert_eq!(buf[31], 7);
}

#[test]
fn byte_order_of_native_bytes() {
    assert_eq!(ByteOrder::order_of_native_bytes([1, 0]), ByteOrder::LSBFirst);
    assert_eq!(ByteOrder::order_of_native_bytes([0, 1]), ByteOrder::MSBFirst);
    assert_eq!(ByteOrder::order_of_native_bytes(1u16.to_ne_bytes()), ByteOrder::native());
}
