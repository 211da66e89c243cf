use x11anywhere::protocol::parser::{
    CreatePixmapRequest, CreateWindowRequest, DestroyWindowRequest, ProtocolParser, Request,
};
use x11anywhere::protocol::types::{ByteOrder, Drawable, Pixmap, VisualID, Window, WindowClass, XID};
use x11anywhere::resources::{CleanupRequest, ResourceTracker};

fn create_window(wid: u32) -> Request {
    Request::CreateWindow(CreateWindowRequest {
        depth: 24,
        wid: Window::new(wid),
        parent: Window::new(1),
        x: 0,
        y: 0,
        width: 100,
        height: 100,
        border_width: 0,
        class: WindowClass::InputOutput,
        visual: VisualID::new(0),
        background_pixel: None,
        border_pixel: None,
        event_mask: None,
        cursor: None,
    })
}

#[test]
fn test_client_registration() {
    let mut tracker = ResourceTracker::new();
    let client1 = tracker.register_client();
    let client2 = tracker.register_client();

    assert_eq!(client1, 1);
    assert_eq!(client2, 2);
}

#[test]
fn test_resource_tracking() {
    let mut tracker = ResourceTracker::new();
    let client_id = tracker.register_client();

    // Create a window
    let req = Request::CreateWindow(CreateWindowRequest {
        depth: 24,
        wid: Window::new(0x1000),
        parent: Window::new(1),
        x: 0,
        y: 0,
        width: 100,
        height: 100,
        border_width: 0,
        class: WindowClass::InputOutput,
        visual: VisualID::new(0),
        background_pixel: None,
        border_pixel: None,
        event_mask: None,
        cursor: None,
    });

    tracker.track_request(client_id, &req);

    assert!(tracker.client_owns_window(client_id, XID::new(0x1000)));
    assert_eq!(tracker.get_resource_counts(client_id).windows, 1);
}

#[test]
fn test_cleanup_generation() {
    let mut tracker = ResourceTracker::new();
    let client_id = tracker.register_client();

    // Create resources
    tracker.track_request(
        client_id,
        &Request::CreateWindow(CreateWindowRequest {
            depth: 24,
            wid: Window::new(0x1000),
            parent: Window::new(1),
            x: 0,
            y: 0,
            width: 100,
            height: 100,
            border_width: 0,
            class: WindowClass::InputOutput,
            visual: VisualID::new(0),
            background_pixel: None,
            border_pixel: None,
            event_mask: None,
            cursor: None,
        }),
    );

    tracker.track_request(
        client_id,
        &Request::CreatePixmap(CreatePixmapRequest {
            depth: 24,
            pid: Pixmap::new(0x2000),
            drawable: Drawable::Window(Window::new(1)),
            width: 32,
            height: 32,
        }),
    );

    // Unregister client
    let cleanup = tracker.unregister_client(client_id);

    assert_eq!(cleanup.len(), 2);
}

#[test]
fn default_tracker_starts_at_client_zero() {
    let mut tracker = ResourceTracker::default();
    assert_eq!(tracker.register_client(), 0);
    assert_eq!(tracker.register_client(), 1);
}

#[test]
fn window_is_owned_until_destroyed() {
    let mut tracker = ResourceTracker::new();
    let a = tracker.register_client();
    let b = tracker.register_client();
    tracker.track_request(a, &create_window(0x10));
    assert!(tracker.client_owns_window(a, XID::new(0x10)));
    assert!(!tracker.client_owns_window(b, XID::new(0x10)));
    assert_eq!(tracker.get_resource_counts(b).windows, 0);

    tracker.track_request(a, &Request::DestroyWindow(DestroyWindowRequest { window: Window::new(0x10) }));
    assert!(!tracker.client_owns_window(a, XID::new(0x10)));
    assert_eq!(tracker.get_resource_counts(a).windows, 0);
}

#[test]
fn requests_of_unknown_clients_change_nothing() {
    let mut tracker = ResourceTracker::new();
    tracker.track_request(7, &create_window(0x10));
    assert!(!tracker.client_owns_window(7, XID::new(0x10)));
    assert!(tracker.get_client_windows(7).is_none());
    assert_eq!(tracker.get_resource_counts(7).windows, 0);
}

#[test]
fn cleanup_lists_windows_before_pixmaps() {
    let mut tracker = ResourceTracker::new();
    let c = tracker.register_client();
    tracker.track_request(
        c,
        &Request::CreatePixmap(CreatePixmapRequest {
            depth: 24,
            pid: Pixmap::new(0x2000),
            drawable: Drawable::Window(Window::new(1)),
            width: 32,
            height: 32,
        }),
    );
    tracker.track_request(c, &create_window(0x1000));
    let cleanup = tracker.unregister_client(c);
    assert_eq!(
        cleanup,
        vec![
            CleanupRequest::DestroyWindow(Window::new(0x1000)),
            CleanupRequest::FreePixmap(Pixmap::new(0x2000)),
        ]
    );
    assert!(tracker.get_client_windows(c).is_none());
    assert!(tracker.get_client_pixmaps(c).is_none());
    assert!(!tracker.client_owns_window(c, XID::new(0x1000)));
}

#[test]
fn client_windows_are_listed() {
    let mut tracker = ResourceTracker::new();
    let c = tracker.register_client();
    tracker.track_request(c, &create_window(0x11));
    tracker.track_request(c, &create_window(0x12));
    let windows = tracker.get_client_windows(c).unwrap();
    assert_eq!(windows.len(), 2);
    assert!(windows.contains(&0x11));
    assert!(windows.contains(&0x12));
    assert_eq!(tracker.get_client_pixmaps(c).unwrap().len(), 0);
}

#[test]
fn cleanup_request_bytes() {
    let req = CleanupRequest::DestroyWindow(Window::new(0x0102_0304));
    assert_eq!(req.encode(ByteOrder::MSBFirst), vec![4, 0, 0, 2, 1, 2, 3, 4]);
    assert_eq!(req.encode(ByteOrder::LSBFirst), vec![4, 0, 2, 0, 4, 3, 2, 1]);
    assert_eq!(CleanupRequest::FreeCursor(5).encode(ByteOrder::MSBFirst), vec![95, 0, 0, 2, 0, 0, 0, 5]);
}

#[test]
fn cleanup_request_parses_back() {
    let parser = ProtocolParser::new(ByteOrder::LSBFirst);
    let bytes = CleanupRequest::DestroyWindow(Window::new(0x42)).encode(ByteOrder::LSBFirst);
    assert!(parser.request_in_bounds(&bytes));
    match parser.parse_request(&bytes) {
        Ok((Request::DestroyWindow(r), length)) => {
            assert_eq!(r.window, Window::new(0x42));
            assert_eq!(length, 2);
        }
        other => panic!("unexpected {:?}", other),
    }
    let bytes = CleanupRequest::FreeColormap(x11anywhere::protocol::types::Colormap::new(9))
        .encode(ByteOrder::LSBFirst);
    assert!(parser.parse_request(&bytes).is_err());
}

#[test]
fn client_ids_are_never_reused() {
    let mut tracker = ResourceTracker::new();
    let a = tracker.register_client();
    let b = tracker.register_client();
    tracker.unregister_client(a);
    tracker.unregister_client(b);
    let c = tracker.register_client();
    assert_eq!((a, b, c), (1, 2, 3));
}
