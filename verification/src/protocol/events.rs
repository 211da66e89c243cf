//! X11 protocol events
//!
//! Events are sent from the server to clients to notify them of state changes,
//! user input, and other interesting occurrences. Each event is 32 bytes on the
//! wire: its code in the first byte, its fields after it.
use vstd::prelude::*;
use super::types::{Atom, ByteOrder, Drawable, Timestamp, Window};
use super::wire::{
    group_wire_lengths,
    fill_zero, i16_at, i16_bytes, lemma_i16_read, lemma_u16_read, lemma_u32_read, push_i16,
    push_u16, push_u32, put_bytes, put_u8, splice, u16_at, u16_bytes, u32_at, u32_bytes, zeros,
};

verus! {

/// `s` with `code` in its first byte and `body` from offset `start` on.
#[verifier::opaque]
pub open spec fn written(s: Seq<u8>, code: u8, start: int, body: Seq<u8>) -> Seq<u8> {
    splice(splice(s, 0, seq![code]), start, body)
}

/// Puts an event's code in the first byte of `buffer` and its body at `start`.
fn write_event(buffer: &mut [u8], code: u8, start: usize, body: &[u8])
    requires
        1 <= start,
        start + body@.len() <= old(buffer)@.len(),
    ensures
        final(buffer)@ == written(old(buffer)@, code, start as int, body@),
{
    proof {
        reveal(written);
    }
    put_u8(buffer, 0, code);
    put_bytes(buffer, start, body);
}

/// Writing an event keeps the length of the buffer and puts the code first.
pub proof fn lemma_written(s: Seq<u8>, code: u8, start: int, body: Seq<u8>)
    requires
        1 <= start,
        start + body.len() <= s.len(),
    ensures
        written(s, code, start, body).len() == s.len(),
        written(s, code, start, body)[0] == code,
{
    reveal(written);
}

/// Writing an event into `s` puts the code first and the body at `start`, and leaves
/// every other byte as it was.
pub proof fn lemma_written_parts(s: Seq<u8>, code: u8, start: int, body: Seq<u8>)
    requires
        1 <= start,
        start + body.len() <= s.len(),
    ensures
        written(s, code, start, body).len() == s.len(),
        written(s, code, start, body)[0] == code,
        written(s, code, start, body).subrange(start, start + body.len()) == body,
        forall|k: int|
            (1 <= k < start || start + body.len() <= k < s.len()) ==> #[trigger] written(
                s,
                code,
                start,
                body,
            )[k] == s[k],
{
    reveal(written);
    let w = written(s, code, start, body);
    assert(w.subrange(start, start + body.len()) =~= body);
}

/// Event type codes
#[derive(Debug, Clone, Copy, PartialEq, Eq, Structural)]
pub enum EventType {
    KeyPress,
    KeyRelease,
    ButtonPress,
    ButtonRelease,
    MotionNotify,
    EnterNotify,
    LeaveNotify,
    FocusIn,
    FocusOut,
    KeymapNotify,
    Expose,
    GraphicsExposure,
    NoExposure,
    VisibilityNotify,
    CreateNotify,
    DestroyNotify,
    UnmapNotify,
    MapNotify,
    MapRequest,
    ReparentNotify,
    ConfigureNotify,
    ConfigureRequest,
    GravityNotify,
    ResizeRequest,
    CirculateNotify,
    CirculateRequest,
    PropertyNotify,
    SelectionClear,
    SelectionRequest,
    SelectionNotify,
    ColormapNotify,
    ClientMessage,
    MappingNotify,
}

impl EventType {
    /// The event's code on the wire.
    pub open spec fn spec_code(self) -> u8 {
        match self {
            EventType::KeyPress => 2,
            EventType::KeyRelease => 3,
            EventType::ButtonPress => 4,
            EventType::ButtonRelease => 5,
            EventType::MotionNotify => 6,
            EventType::EnterNotify => 7,
            EventType::LeaveNotify => 8,
            EventType::FocusIn => 9,
            EventType::FocusOut => 10,
            EventType::KeymapNotify => 11,
            EventType::Expose => 12,
            EventType::GraphicsExposure => 13,
            EventType::NoExposure => 14,
            EventType::VisibilityNotify => 15,
            EventType::CreateNotify => 16,
            EventType::DestroyNotify => 17,
            EventType::UnmapNotify => 18,
            EventType::MapNotify => 19,
            EventType::MapRequest => 20,
            EventType::ReparentNotify => 21,
            EventType::ConfigureNotify => 22,
            EventType::ConfigureRequest => 23,
            EventType::GravityNotify => 24,
            EventType::ResizeRequest => 25,
            EventType::CirculateNotify => 26,
            EventType::CirculateRequest => 27,
            EventType::PropertyNotify => 28,
            EventType::SelectionClear => 29,
            EventType::SelectionRequest => 30,
            EventType::SelectionNotify => 31,
            EventType::ColormapNotify => 32,
            EventType::ClientMessage => 33,
            EventType::MappingNotify => 34,
        }
    }

    /// The event's code on the wire.
    pub fn code(&self) -> (r: u8)
        ensures
            r == self.spec_code(),
    {
        match self {
            EventType::KeyPress => 2,
            EventType::KeyRelease => 3,
            EventType::ButtonPress => 4,
            EventType::ButtonRelease => 5,
            EventType::MotionNotify => 6,
            EventType::EnterNotify => 7,
            EventType::LeaveNotify => 8,
            EventType::FocusIn => 9,
            EventType::FocusOut => 10,
            EventType::KeymapNotify => 11,
            EventType::Expose => 12,
            EventType::GraphicsExposure => 13,
            EventType::NoExposure => 14,
            EventType::VisibilityNotify => 15,
            EventType::CreateNotify => 16,
            EventType::DestroyNotify => 17,
            EventType::UnmapNotify => 18,
            EventType::MapNotify => 19,
            EventType::MapRequest => 20,
            EventType::ReparentNotify => 21,
            EventType::ConfigureNotify => 22,
            EventType::ConfigureRequest => 23,
            EventType::GravityNotify => 24,
            EventType::ResizeRequest => 25,
            EventType::CirculateNotify => 26,
            EventType::CirculateRequest => 27,
            EventType::PropertyNotify => 28,
            EventType::SelectionClear => 29,
            EventType::SelectionRequest => 30,
            EventType::SelectionNotify => 31,
            EventType::ColormapNotify => 32,
            EventType::ClientMessage => 33,
            EventType::MappingNotify => 34,
        }
    }
}

/// Base event structure
#[derive(Debug, Clone)]
pub enum Event {
    KeyPress(KeyPressEvent),
    KeyRelease(KeyReleaseEvent),
    ButtonPress(ButtonPressEvent),
    ButtonRelease(ButtonReleaseEvent),
    MotionNotify(MotionNotifyEvent),
    EnterNotify(EnterNotifyEvent),
    LeaveNotify(LeaveNotifyEvent),
    FocusIn(FocusInEvent),
    FocusOut(FocusOutEvent),
    Expose(ExposeEvent),
    GraphicsExposure(GraphicsExposureEvent),
    NoExposure(NoExposureEvent),
    CreateNotify(CreateNotifyEvent),
    DestroyNotify(DestroyNotifyEvent),
    UnmapNotify(UnmapNotifyEvent),
    MapNotify(MapNotifyEvent),
    MapRequest(MapRequestEvent),
    ReparentNotify(ReparentNotifyEvent),
    ConfigureNotify(ConfigureNotifyEvent),
    ConfigureRequest(ConfigureRequestEvent),
    PropertyNotify(PropertyNotifyEvent),
    SelectionClear(SelectionClearEvent),
    SelectionRequest(SelectionRequestEvent),
    SelectionNotify(SelectionNotifyEvent),
    ClientMessage(ClientMessageEvent),
}

impl Event {
    /// The type of the event.
    pub open spec fn spec_event_type(self) -> EventType {
        match self {
            Event::KeyPress(_) => EventType::KeyPress,
            Event::KeyRelease(_) => EventType::KeyRelease,
            Event::ButtonPress(_) => EventType::ButtonPress,
            Event::ButtonRelease(_) => EventType::ButtonRelease,
            Event::MotionNotify(_) => EventType::MotionNotify,
            Event::EnterNotify(_) => EventType::EnterNotify,
            Event::LeaveNotify(_) => EventType::LeaveNotify,
            Event::FocusIn(_) => EventType::FocusIn,
            Event::FocusOut(_) => EventType::FocusOut,
            Event::Expose(_) => EventType::Expose,
            Event::GraphicsExposure(_) => EventType::GraphicsExposure,
            Event::NoExposure(_) => EventType::NoExposure,
            Event::CreateNotify(_) => EventType::CreateNotify,
            Event::DestroyNotify(_) => EventType::DestroyNotify,
            Event::UnmapNotify(_) => EventType::UnmapNotify,
            Event::MapNotify(_) => EventType::MapNotify,
            Event::MapRequest(_) => EventType::MapRequest,
            Event::ReparentNotify(_) => EventType::ReparentNotify,
            Event::ConfigureNotify(_) => EventType::ConfigureNotify,
            Event::ConfigureRequest(_) => EventType::ConfigureRequest,
            Event::PropertyNotify(_) => EventType::PropertyNotify,
            Event::SelectionClear(_) => EventType::SelectionClear,
            Event::SelectionRequest(_) => EventType::SelectionRequest,
            Event::SelectionNotify(_) => EventType::SelectionNotify,
            Event::ClientMessage(_) => EventType::ClientMessage,
        }
    }

    /// Get the event type code
    pub fn event_type(&self) -> (r: EventType)
        ensures
            r == self.spec_event_type(),
    {
        match self {
            Event::KeyPress(_) => EventType::KeyPress,
            Event::KeyRelease(_) => EventType::KeyRelease,
            Event::ButtonPress(_) => EventType::ButtonPress,
            Event::ButtonRelease(_) => EventType::ButtonRelease,
            Event::MotionNotify(_) => EventType::MotionNotify,
            Event::EnterNotify(_) => EventType::EnterNotify,
            Event::LeaveNotify(_) => EventType::LeaveNotify,
            Event::FocusIn(_) => EventType::FocusIn,
            Event::FocusOut(_) => EventType::FocusOut,
            Event::Expose(_) => EventType::Expose,
            Event::GraphicsExposure(_) => EventType::GraphicsExposure,
            Event::NoExposure(_) => EventType::NoExposure,
            Event::CreateNotify(_) => EventType::CreateNotify,
            Event::DestroyNotify(_) => EventType::DestroyNotify,
            Event::UnmapNotify(_) => EventType::UnmapNotify,
            Event::MapNotify(_) => EventType::MapNotify,
            Event::MapRequest(_) => EventType::MapRequest,
            Event::ReparentNotify(_) => EventType::ReparentNotify,
            Event::ConfigureNotify(_) => EventType::ConfigureNotify,
            Event::ConfigureRequest(_) => EventType::ConfigureRequest,
            Event::PropertyNotify(_) => EventType::PropertyNotify,
            Event::SelectionClear(_) => EventType::SelectionClear,
            Event::SelectionRequest(_) => EventType::SelectionRequest,
            Event::SelectionNotify(_) => EventType::SelectionNotify,
            Event::ClientMessage(_) => EventType::ClientMessage,
        }
    }

    /// The offset at which the event's fields start: 1, or 2 where the second byte is unused.
    pub open spec fn spec_start(self) -> int {
        match self {
            Event::KeyPress(_) => 1,
            Event::KeyRelease(_) => 1,
            Event::ButtonPress(_) => 1,
            Event::ButtonRelease(_) => 1,
            Event::MotionNotify(_) => 1,
            Event::EnterNotify(_) => 1,
            Event::LeaveNotify(_) => 1,
            Event::FocusIn(_) => 1,
            Event::FocusOut(_) => 1,
            Event::Expose(_) => 2,
            Event::GraphicsExposure(_) => 2,
            Event::NoExposure(_) => 2,
            Event::CreateNotify(_) => 2,
            Event::DestroyNotify(_) => 2,
            Event::UnmapNotify(_) => 2,
            Event::MapNotify(_) => 2,
            Event::MapRequest(_) => 2,
            Event::ReparentNotify(_) => 2,
            Event::ConfigureNotify(_) => 2,
            Event::ConfigureRequest(_) => 1,
            Event::PropertyNotify(_) => 2,
            Event::SelectionClear(_) => 2,
            Event::SelectionRequest(_) => 2,
            Event::SelectionNotify(_) => 2,
            Event::ClientMessage(_) => 1,
        }
    }

    /// The event's fields as they are written in `order`, from `spec_start` on.
    pub open spec fn spec_fields(self, order: ByteOrder) -> Seq<u8> {
        match self {
            Event::KeyPress(e) => e.spec_body(order),
            Event::KeyRelease(e) => e.spec_body(order),
            Event::ButtonPress(e) => e.spec_body(order),
            Event::ButtonRelease(e) => e.spec_body(order),
            Event::MotionNotify(e) => e.spec_body(order),
            Event::EnterNotify(e) => e.spec_body(order),
            Event::LeaveNotify(e) => e.spec_body(order),
            Event::FocusIn(e) => e.spec_body(order),
            Event::FocusOut(e) => e.spec_body(order),
            Event::Expose(e) => e.spec_body(order),
            Event::GraphicsExposure(e) => e.spec_body(order),
            Event::NoExposure(e) => e.spec_body(order),
            Event::CreateNotify(e) => e.spec_body(order),
            Event::DestroyNotify(e) => e.spec_body(order),
            Event::UnmapNotify(e) => e.spec_body(order),
            Event::MapNotify(e) => e.spec_body(order),
            Event::MapRequest(e) => e.spec_body(order),
            Event::ReparentNotify(e) => e.spec_body(order),
            Event::ConfigureNotify(e) => e.spec_body(order),
            Event::ConfigureRequest(e) => e.spec_body(order),
            Event::PropertyNotify(e) => e.spec_body(order),
            Event::SelectionClear(e) => e.spec_body(order),
            Event::SelectionRequest(e) => e.spec_body(order),
            Event::SelectionNotify(e) => e.spec_body(order),
            Event::ClientMessage(e) => e.spec_body(order),
        }
    }

    /// The `len` bytes of an event buffer after the event is written into it in `order`:
    /// zeros, with the event's code first and its fields from `spec_start` on.
    pub open spec fn spec_encoded(self, len: nat, order: ByteOrder) -> Seq<u8> {
        written(zeros(len), self.spec_event_type().spec_code(), self.spec_start(), self.spec_fields(order))
    }

    /// The fields fit in a 32-byte event after the code.
    pub proof fn lemma_fields_len(self, order: ByteOrder)
        ensures
            1 <= self.spec_start(),
            self.spec_start() + self.spec_fields(order).len() <= 32,
    {
        broadcast use group_wire_lengths;

        match self {
            Event::KeyPress(_) => {},
            Event::KeyRelease(_) => {},
            Event::ButtonPress(_) => {},
            Event::ButtonRelease(_) => {},
            Event::MotionNotify(_) => {},
            Event::EnterNotify(_) => {},
            Event::LeaveNotify(_) => {},
            Event::FocusIn(_) => {},
            Event::FocusOut(_) => {},
            Event::Expose(_) => {},
            Event::GraphicsExposure(_) => {},
            Event::NoExposure(_) => {},
            Event::CreateNotify(_) => {},
            Event::DestroyNotify(_) => {},
            Event::UnmapNotify(_) => {},
            Event::MapNotify(_) => {},
            Event::MapRequest(_) => {},
            Event::ReparentNotify(_) => {},
            Event::ConfigureNotify(_) => {},
            Event::ConfigureRequest(_) => {},
            Event::PropertyNotify(_) => {},
            Event::SelectionClear(_) => {},
            Event::SelectionRequest(_) => {},
            Event::SelectionNotify(_) => {},
            Event::ClientMessage(x) => { x.data.lemma_len(order); },
        }
    }

    /// The event's code, the offset of its fields and the fields in `order`.
    fn parts(&self, order: ByteOrder) -> (r: (u8, usize, Vec<u8>))
        ensures
            r.0 == self.spec_event_type().spec_code(),
            r.1 == self.spec_start(),
            r.2@ == self.spec_fields(order),
            1 <= r.1,
            r.1 + r.2@.len() <= 32,
    {
        match self {
            Event::KeyPress(e) => (2, 1, e.body(order)),
            Event::KeyRelease(e) => (3, 1, e.body(order)),
            Event::ButtonPress(e) => (4, 1, e.body(order)),
            Event::ButtonRelease(e) => (5, 1, e.body(order)),
            Event::MotionNotify(e) => (6, 1, e.body(order)),
            Event::EnterNotify(e) => (7, 1, e.body(order)),
            Event::LeaveNotify(e) => (8, 1, e.body(order)),
            Event::FocusIn(e) => (9, 1, e.body(order)),
            Event::FocusOut(e) => (10, 1, e.body(order)),
            Event::Expose(e) => (12, 2, e.body(order)),
            Event::GraphicsExposure(e) => (13, 2, e.body(order)),
            Event::NoExposure(e) => (14, 2, e.body(order)),
            Event::CreateNotify(e) => (16, 2, e.body(order)),
            Event::DestroyNotify(e) => (17, 2, e.body(order)),
            Event::UnmapNotify(e) => (18, 2, e.body(order)),
            Event::MapNotify(e) => (19, 2, e.body(order)),
            Event::MapRequest(e) => (20, 2, e.body(order)),
            Event::ReparentNotify(e) => (21, 2, e.body(order)),
            Event::ConfigureNotify(e) => (22, 2, e.body(order)),
            Event::ConfigureRequest(e) => (23, 1, e.body(order)),
            Event::PropertyNotify(e) => (28, 2, e.body(order)),
            Event::SelectionClear(e) => (29, 2, e.body(order)),
            Event::SelectionRequest(e) => (30, 2, e.body(order)),
            Event::SelectionNotify(e) => (31, 2, e.body(order)),
            Event::ClientMessage(e) => (33, 1, e.body(order)),
        }
    }

    /// Clears `buffer` and writes the event into it with its integers in `order`.
    pub fn encode_with_order(&self, buffer: &mut [u8], order: ByteOrder)
        requires
            old(buffer)@.len() >= 32,
        ensures
            final(buffer)@ == self.spec_encoded(old(buffer)@.len(), order),
    {
        let (code, start, fields) = self.parts(order);
        fill_zero(buffer);
        write_event(buffer, code, start, fields.as_slice());
    }

    /// Encode event to wire format (32 bytes), in the machine's native byte order.
    pub fn encode(&self, buffer: &mut [u8])
        requires
            old(buffer)@.len() >= 32,
        ensures
            final(buffer)@ == self.spec_encoded(old(buffer)@.len(), ByteOrder::LSBFirst)
                || final(buffer)@ == self.spec_encoded(old(buffer)@.len(), ByteOrder::MSBFirst),
    {
        self.encode_with_order(buffer, ByteOrder::native());
    }
}

/// An encoded event keeps the buffer's length, starts with the code of the event's
/// type, and is zero wherever the event writes nothing.
pub proof fn lemma_event_code(e: Event, len: nat, order: ByteOrder)
    requires
        len >= 32,
    ensures
        e.spec_encoded(len, order).len() == len,
        e.spec_encoded(len, order)[0] == e.spec_event_type().spec_code(),
{
    e.lemma_fields_len(order);
    lemma_written(zeros(len), e.spec_event_type().spec_code(), e.spec_start(), e.spec_fields(order));
}

impl Event {
    /// `buffer` with the wrapped event written into it by that event's own encoding.
    pub open spec fn spec_inner_written(self, buffer: Seq<u8>, order: ByteOrder) -> Seq<u8> {
        match self {
            Event::KeyPress(e) => e.spec_written(buffer, order),
            Event::KeyRelease(e) => e.spec_written(buffer, order),
            Event::ButtonPress(e) => e.spec_written(buffer, order),
            Event::ButtonRelease(e) => e.spec_written(buffer, order),
            Event::MotionNotify(e) => e.spec_written(buffer, order),
            Event::EnterNotify(e) => e.spec_written(buffer, order),
            Event::LeaveNotify(e) => e.spec_written(buffer, order),
            Event::FocusIn(e) => e.spec_written(buffer, order),
            Event::FocusOut(e) => e.spec_written(buffer, order),
            Event::Expose(e) => e.spec_written(buffer, order),
            Event::GraphicsExposure(e) => e.spec_written(buffer, order),
            Event::NoExposure(e) => e.spec_written(buffer, order),
            Event::CreateNotify(e) => e.spec_written(buffer, order),
            Event::DestroyNotify(e) => e.spec_written(buffer, order),
            Event::UnmapNotify(e) => e.spec_written(buffer, order),
            Event::MapNotify(e) => e.spec_written(buffer, order),
            Event::MapRequest(e) => e.spec_written(buffer, order),
            Event::ReparentNotify(e) => e.spec_written(buffer, order),
            Event::ConfigureNotify(e) => e.spec_written(buffer, order),
            Event::ConfigureRequest(e) => e.spec_written(buffer, order),
            Event::PropertyNotify(e) => e.spec_written(buffer, order),
            Event::SelectionClear(e) => e.spec_written(buffer, order),
            Event::SelectionRequest(e) => e.spec_written(buffer, order),
            Event::SelectionNotify(e) => e.spec_written(buffer, order),
            Event::ClientMessage(e) => e.spec_written(buffer, order),
        }
    }
}

/// Encoding an event writes, into a cleared buffer, the same bytes in the same byte
/// order as the wrapped event's own encoding does: its code first, its fields after,
/// and zeros wherever no field lies.
pub proof fn lemma_event_encodes_as_inner(e: Event, len: nat, order: ByteOrder)
    ensures
        e.spec_encoded(len, order) == e.spec_inner_written(zeros(len), order),
{
}

/// Key press (event code 2).
#[derive(Debug, Clone)]
pub struct KeyPressEvent {
    pub detail: u8,
    pub sequence: u16,
    pub time: Timestamp,
    pub root: Window,
    pub event: Window,
    pub child: Window,
    pub root_x: i16,
    pub root_y: i16,
    pub event_x: i16,
    pub event_y: i16,
    pub state: u16,
    pub same_screen: bool,
}

impl KeyPressEvent {
    /// The bytes that the event writes from offset 1 on.
    pub open spec fn spec_body(self, order: ByteOrder) -> Seq<u8> {
        seq![self.detail]
            + u16_bytes(order, self.sequence)
            + u32_bytes(order, self.time.0)
            + u32_bytes(order, self.root.0.0)
            + u32_bytes(order, self.event.0.0)
            + u32_bytes(order, self.child.0.0)
            + i16_bytes(order, self.root_x)
            + i16_bytes(order, self.root_y)
            + i16_bytes(order, self.event_x)
            + i16_bytes(order, self.event_y)
            + u16_bytes(order, self.state)
            + seq![if self.same_screen { 1u8 } else { 0u8 }]
    }

    /// `buffer` with the event written into it in `order`.
    pub open spec fn spec_written(self, buffer: Seq<u8>, order: ByteOrder) -> Seq<u8> {
        written(buffer, 2, 1, self.spec_body(order))
    }

    fn body(&self, order: ByteOrder) -> (r: Vec<u8>)
        ensures
            r@ == self.spec_body(order),
            r@.len() == 30,
    {
        let mut body: Vec<u8> = Vec::new();
        body.push(self.detail);
        push_u16(&mut body, order, self.sequence);
        push_u32(&mut body, order, self.time.get());
        push_u32(&mut body, order, self.root.id().get());
        push_u32(&mut body, order, self.event.id().get());
        push_u32(&mut body, order, self.child.id().get());
        push_i16(&mut body, order, self.root_x);
        push_i16(&mut body, order, self.root_y);
        push_i16(&mut body, order, self.event_x);
        push_i16(&mut body, order, self.event_y);
        push_u16(&mut body, order, self.state);
        body.push(if self.same_screen { 1u8 } else { 0u8 });
        assert(body@ =~= self.spec_body(order));
        body
    }

    /// Writes the event into `buffer` with its integers in `order`.
    pub fn encode_with_order(&self, buffer: &mut [u8], order: ByteOrder)
        requires
            old(buffer)@.len() >= 31,
        ensures
            final(buffer)@ == self.spec_written(old(buffer)@, order),
    {
        let body = self.body(order);
        write_event(buffer, 2, 1, body.as_slice());
    }

    /// Writes the event into `buffer` in the machine's native byte order.
    pub fn encode(&self, buffer: &mut [u8])
        requires
            old(buffer)@.len() >= 31,
        ensures
            final(buffer)@ == self.spec_written(old(buffer)@, ByteOrder::LSBFirst) || final(buffer)@
                == self.spec_written(old(buffer)@, ByteOrder::MSBFirst),
    {
        self.encode_with_order(buffer, ByteOrder::native());
    }
}

/// Key release (event code 3).
#[derive(Debug, Clone)]
pub struct KeyReleaseEvent {
    pub detail: u8,
    pub sequence: u16,
    pub time: Timestamp,
    pub root: Window,
    pub event: Window,
    pub child: Window,
    pub root_x: i16,
    pub root_y: i16,
    pub event_x: i16,
    pub event_y: i16,
    pub state: u16,
    pub same_screen: bool,
}

impl KeyReleaseEvent {
    /// The bytes that the event writes from offset 1 on.
    pub open spec fn spec_body(self, order: ByteOrder) -> Seq<u8> {
        seq![self.detail]
            + u16_bytes(order, self.sequence)
            + u32_bytes(order, self.time.0)
            + u32_bytes(order, self.root.0.0)
            + u32_bytes(order, self.event.0.0)
            + u32_bytes(order, self.child.0.0)
            + i16_bytes(order, self.root_x)
            + i16_bytes(order, self.root_y)
            + i16_bytes(order, self.event_x)
            + i16_bytes(order, self.event_y)
            + u16_bytes(order, self.state)
            + seq![if self.same_screen { 1u8 } else { 0u8 }]
    }

    /// `buffer` with the event written into it in `order`.
    pub open spec fn spec_written(self, buffer: Seq<u8>, order: ByteOrder) -> Seq<u8> {
        written(buffer, 3, 1, self.spec_body(order))
    }

    fn body(&self, order: ByteOrder) -> (r: Vec<u8>)
        ensures
            r@ == self.spec_body(order),
            r@.len() == 30,
    {
        let mut body: Vec<u8> = Vec::new();
        body.push(self.detail);
        push_u16(&mut body, order, self.sequence);
        push_u32(&mut body, order, self.time.get());
        push_u32(&mut body, order, self.root.id().get());
        push_u32(&mut body, order, self.event.id().get());
        push_u32(&mut body, order, self.child.id().get());
        push_i16(&mut body, order, self.root_x);
        push_i16(&mut body, order, self.root_y);
        push_i16(&mut body, order, self.event_x);
        push_i16(&mut body, order, self.event_y);
        push_u16(&mut body, order, self.state);
        body.push(if self.same_screen { 1u8 } else { 0u8 });
        assert(body@ =~= self.spec_body(order));
        body
    }

    /// Writes the event into `buffer` with its integers in `order`.
    pub fn encode_with_order(&self, buffer: &mut [u8], order: ByteOrder)
        requires
            old(buffer)@.len() >= 31,
        ensures
            final(buffer)@ == self.spec_written(old(buffer)@, order),
    {
        let body = self.body(order);
        write_event(buffer, 3, 1, body.as_slice());
    }

    /// Writes the event into `buffer` in the machine's native byte order.
    pub fn encode(&self, buffer: &mut [u8])
        requires
            old(buffer)@.len() >= 31,
        ensures
            final(buffer)@ == self.spec_written(old(buffer)@, ByteOrder::LSBFirst) || final(buffer)@
                == self.spec_written(old(buffer)@, ByteOrder::MSBFirst),
    {
        self.encode_with_order(buffer, ByteOrder::native());
    }
}

/// Button press (event code 4).
#[derive(Debug, Clone)]
pub struct ButtonPressEvent {
    pub detail: u8,
    pub sequence: u16,
    pub time: Timestamp,
    pub root: Window,
    pub event: Window,
    pub child: Window,
    pub root_x: i16,
    pub root_y: i16,
    pub event_x: i16,
    pub event_y: i16,
    pub state: u16,
    pub same_screen: bool,
}

impl ButtonPressEvent {
    /// The bytes that the event writes from offset 1 on.
    pub open spec fn spec_body(self, order: ByteOrder) -> Seq<u8> {
        seq![self.detail]
            + u16_bytes(order, self.sequence)
            + u32_bytes(order, self.time.0)
            + u32_bytes(order, self.root.0.0)
            + u32_bytes(order, self.event.0.0)
            + u32_bytes(order, self.child.0.0)
            + i16_bytes(order, self.root_x)
            + i16_bytes(order, self.root_y)
            + i16_bytes(order, self.event_x)
            + i16_bytes(order, self.event_y)
            + u16_bytes(order, self.state)
            + seq![if self.same_screen { 1u8 } else { 0u8 }]
    }

    /// `buffer` with the event written into it in `order`.
    pub open spec fn spec_written(self, buffer: Seq<u8>, order: ByteOrder) -> Seq<u8> {
        written(buffer, 4, 1, self.spec_body(order))
    }

    fn body(&self, order: ByteOrder) -> (r: Vec<u8>)
        ensures
            r@ == self.spec_body(order),
            r@.len() == 30,
    {
        let mut body: Vec<u8> = Vec::new();
        body.push(self.detail);
        push_u16(&mut body, order, self.sequence);
        push_u32(&mut body, order, self.time.get());
        push_u32(&mut body, order, self.root.id().get());
        push_u32(&mut body, order, self.event.id().get());
        push_u32(&mut body, order, self.child.id().get());
        push_i16(&mut body, order, self.root_x);
        push_i16(&mut body, order, self.root_y);
        push_i16(&mut body, order, self.event_x);
        push_i16(&mut body, order, self.event_y);
        push_u16(&mut body, order, self.state);
        body.push(if self.same_screen { 1u8 } else { 0u8 });
        assert(body@ =~= self.spec_body(order));
        body
    }

    /// Writes the event into `buffer` with its integers in `order`.
    pub fn encode_with_order(&self, buffer: &mut [u8], order: ByteOrder)
        requires
            old(buffer)@.len() >= 31,
        ensures
            final(buffer)@ == self.spec_written(old(buffer)@, order),
    {
        let body = self.body(order);
        write_event(buffer, 4, 1, body.as_slice());
    }

    /// Writes the event into `buffer` in the machine's native byte order.
    pub fn encode(&self, buffer: &mut [u8])
        requires
            old(buffer)@.len() >= 31,
        ensures
            final(buffer)@ == self.spec_written(old(buffer)@, ByteOrder::LSBFirst) || final(buffer)@
                == self.spec_written(old(buffer)@, ByteOrder::MSBFirst),
    {
        self.encode_with_order(buffer, ByteOrder::native());
    }
}

/// Button release (event code 5).
#[derive(Debug, Clone)]
pub struct ButtonReleaseEvent {
    pub detail: u8,
    pub sequence: u16,
    pub time: Timestamp,
    pub root: Window,
    pub event: Window,
    pub child: Window,
    pub root_x: i16,
    pub root_y: i16,
    pub event_x: i16,
    pub event_y: i16,
    pub state: u16,
    pub same_screen: bool,
}

impl ButtonReleaseEvent {
    /// The bytes that the event writes from offset 1 on.
    pub open spec fn spec_body(self, order: ByteOrder) -> Seq<u8> {
        seq![self.detail]
            + u16_bytes(order, self.sequence)
            + u32_bytes(order, self.time.0)
            + u32_bytes(order, self.root.0.0)
            + u32_bytes(order, self.event.0.0)
            + u32_bytes(order, self.child.0.0)
            + i16_bytes(order, self.root_x)
            + i16_bytes(order, self.root_y)
            + i16_bytes(order, self.event_x)
            + i16_bytes(order, self.event_y)
            + u16_bytes(order, self.state)
            + seq![if self.same_screen { 1u8 } else { 0u8 }]
    }

    /// `buffer` with the event written into it in `order`.
    pub open spec fn spec_written(self, buffer: Seq<u8>, order: ByteOrder) -> Seq<u8> {
        written(buffer, 5, 1, self.spec_body(order))
    }

    fn body(&self, order: ByteOrder) -> (r: Vec<u8>)
        ensures
            r@ == self.spec_body(order),
            r@.len() == 30,
    {
        let mut body: Vec<u8> = Vec::new();
        body.push(self.detail);
        push_u16(&mut body, order, self.sequence);
        push_u32(&mut body, order, self.time.get());
        push_u32(&mut body, order, self.root.id().get());
        push_u32(&mut body, order, self.event.id().get());
        push_u32(&mut body, order, self.child.id().get());
        push_i16(&mut body, order, self.root_x);
        push_i16(&mut body, order, self.root_y);
        push_i16(&mut body, order, self.event_x);
        push_i16(&mut body, order, self.event_y);
        push_u16(&mut body, order, self.state);
        body.push(if self.same_screen { 1u8 } else { 0u8 });
        assert(body@ =~= self.spec_body(order));
        body
    }

    /// Writes the event into `buffer` with its integers in `order`.
    pub fn encode_with_order(&self, buffer: &mut [u8], order: ByteOrder)
        requires
            old(buffer)@.len() >= 31,
        ensures
            final(buffer)@ == self.spec_written(old(buffer)@, order),
    {
        let body = self.body(order);
        write_event(buffer, 5, 1, body.as_slice());
    }

    /// Writes the event into `buffer` in the machine's native byte order.
    pub fn encode(&self, buffer: &mut [u8])
        requires
            old(buffer)@.len() >= 31,
        ensures
            final(buffer)@ == self.spec_written(old(buffer)@, ByteOrder::LSBFirst) || final(buffer)@
                == self.spec_written(old(buffer)@, ByteOrder::MSBFirst),
    {
        self.encode_with_order(buffer, ByteOrder::native());
    }
}

/// Pointer motion (event code 6).
#[derive(Debug, Clone)]
pub struct MotionNotifyEvent {
    pub detail: u8,
    pub sequence: u16,
    pub time: Timestamp,
    pub root: Window,
    pub event: Window,
    pub child: Window,
    pub root_x: i16,
    pub root_y: i16,
    pub event_x: i16,
    pub event_y: i16,
    pub state: u16,
    pub same_screen: bool,
}

impl MotionNotifyEvent {
    /// The bytes that the event writes from offset 1 on.
    pub open spec fn spec_body(self, order: ByteOrder) -> Seq<u8> {
        seq![self.detail]
            + u16_bytes(order, self.sequence)
            + u32_bytes(order, self.time.0)
            + u32_bytes(order, self.root.0.0)
            + u32_bytes(order, self.event.0.0)
            + u32_bytes(order, self.child.0.0)
            + i16_bytes(order, self.root_x)
            + i16_bytes(order, self.root_y)
            + i16_bytes(order, self.event_x)
            + i16_bytes(order, self.event_y)
            + u16_bytes(order, self.state)
            + seq![if self.same_screen { 1u8 } else { 0u8 }]
    }

    /// `buffer` with the event written into it in `order`.
    pub open spec fn spec_written(self, buffer: Seq<u8>, order: ByteOrder) -> Seq<u8> {
        written(buffer, 6, 1, self.spec_body(order))
    }

    fn body(&self, order: ByteOrder) -> (r: Vec<u8>)
        ensures
            r@ == self.spec_body(order),
            r@.len() == 30,
    {
        let mut body: Vec<u8> = Vec::new();
        body.push(self.detail);
        push_u16(&mut body, order, self.sequence);
        push_u32(&mut body, order, self.time.get());
        push_u32(&mut body, order, self.root.id().get());
        push_u32(&mut body, order, self.event.id().get());
        push_u32(&mut body, order, self.child.id().get());
        push_i16(&mut body, order, self.root_x);
        push_i16(&mut body, order, self.root_y);
        push_i16(&mut body, order, self.event_x);
        push_i16(&mut body, order, self.event_y);
        push_u16(&mut body, order, self.state);
        body.push(if self.same_screen { 1u8 } else { 0u8 });
        assert(body@ =~= self.spec_body(order));
        body
    }

    /// Writes the event into `buffer` with its integers in `order`.
    pub fn encode_with_order(&self, buffer: &mut [u8], order: ByteOrder)
        requires
            old(buffer)@.len() >= 31,
        ensures
            final(buffer)@ == self.spec_written(old(buffer)@, order),
    {
        let body = self.body(order);
        write_event(buffer, 6, 1, body.as_slice());
    }

    /// Writes the event into `buffer` in the machine's native byte order.
    pub fn encode(&self, buffer: &mut [u8])
        requires
            old(buffer)@.len() >= 31,
        ensures
            final(buffer)@ == self.spec_written(old(buffer)@, ByteOrder::LSBFirst) || final(buffer)@
                == self.spec_written(old(buffer)@, ByteOrder::MSBFirst),
    {
        self.encode_with_order(buffer, ByteOrder::native());
    }
}

/// Pointer entering a window (event code 7).
#[derive(Debug, Clone)]
pub struct EnterNotifyEvent {
    pub detail: u8,
    pub sequence: u16,
    pub time: Timestamp,
    pub root: Window,
    pub event: Window,
    pub child: Window,
    pub root_x: i16,
    pub root_y: i16,
    pub event_x: i16,
    pub event_y: i16,
    pub state: u16,
    pub mode: u8,
    pub same_screen_focus: u8,
}

impl EnterNotifyEvent {
    /// The bytes that the event writes from offset 1 on.
    pub open spec fn spec_body(self, order: ByteOrder) -> Seq<u8> {
        seq![self.detail]
            + u16_bytes(order, self.sequence)
            + u32_bytes(order, self.time.0)
            + u32_bytes(order, self.root.0.0)
            + u32_bytes(order, self.event.0.0)
            + u32_bytes(order, self.child.0.0)
            + i16_bytes(order, self.root_x)
            + i16_bytes(order, self.root_y)
            + i16_bytes(order, self.event_x)
            + i16_bytes(order, self.event_y)
            + u16_bytes(order, self.state)
            + seq![self.mode]
            + seq![self.same_screen_focus]
    }

    /// `buffer` with the event written into it in `order`.
    pub open spec fn spec_written(self, buffer: Seq<u8>, order: ByteOrder) -> Seq<u8> {
        written(buffer, 7, 1, self.spec_body(order))
    }

    fn body(&self, order: ByteOrder) -> (r: Vec<u8>)
        ensures
            r@ == self.spec_body(order),
            r@.len() == 31,
    {
        let mut body: Vec<u8> = Vec::new();
        body.push(self.detail);
        push_u16(&mut body, order, self.sequence);
        push_u32(&mut body, order, self.time.get());
        push_u32(&mut body, order, self.root.id().get());
        push_u32(&mut body, order, self.event.id().get());
        push_u32(&mut body, order, self.child.id().get());
        push_i16(&mut body, order, self.root_x);
        push_i16(&mut body, order, self.root_y);
        push_i16(&mut body, order, self.event_x);
        push_i16(&mut body, order, self.event_y);
        push_u16(&mut body, order, self.state);
        body.push(self.mode);
        body.push(self.same_screen_focus);
        assert(body@ =~= self.spec_body(order));
        body
    }

    /// Writes the event into `buffer` with its integers in `order`.
    pub fn encode_with_order(&self, buffer: &mut [u8], order: ByteOrder)
        requires
            old(buffer)@.len() >= 32,
        ensures
            final(buffer)@ == self.spec_written(old(buffer)@, order),
    {
        let body = self.body(order);
        write_event(buffer, 7, 1, body.as_slice());
    }

    /// Writes the event into `buffer` in the machine's native byte order.
    pub fn encode(&self, buffer: &mut [u8])
        requires
            old(buffer)@.len() >= 32,
        ensures
            final(buffer)@ == self.spec_written(old(buffer)@, ByteOrder::LSBFirst) || final(buffer)@
                == self.spec_written(old(buffer)@, ByteOrder::MSBFirst),
    {
        self.encode_with_order(buffer, ByteOrder::native());
    }
}

/// Pointer leaving a window (event code 8).
#[derive(Debug, Clone)]
pub struct LeaveNotifyEvent {
    pub detail: u8,
    pub sequence: u16,
    pub time: Timestamp,
    pub root: Window,
    pub event: Window,
    pub child: Window,
    pub root_x: i16,
    pub root_y: i16,
    pub event_x: i16,
    pub event_y: i16,
    pub state: u16,
    pub mode: u8,
    pub same_screen_focus: u8,
}

impl LeaveNotifyEvent {
    /// The bytes that the event writes from offset 1 on.
    pub open spec fn spec_body(self, order: ByteOrder) -> Seq<u8> {
        seq![self.detail]
            + u16_bytes(order, self.sequence)
            + u32_bytes(order, self.time.0)
            + u32_bytes(order, self.root.0.0)
            + u32_bytes(order, self.event.0.0)
            + u32_bytes(order, self.child.0.0)
            + i16_bytes(order, self.root_x)
            + i16_bytes(order, self.root_y)
            + i16_bytes(order, self.event_x)
            + i16_bytes(order, self.event_y)
            + u16_bytes(order, self.state)
            + seq![self.mode]
            + seq![self.same_screen_focus]
    }

    /// `buffer` with the event written into it in `order`.
    pub open spec fn spec_written(self, buffer: Seq<u8>, order: ByteOrder) -> Seq<u8> {
        written(buffer, 8, 1, self.spec_body(order))
    }

    fn body(&self, order: ByteOrder) -> (r: Vec<u8>)
        ensures
            r@ == self.spec_body(order),
            r@.len() == 31,
    {
        let mut body: Vec<u8> = Vec::new();
        body.push(self.detail);
        push_u16(&mut body, order, self.sequence);
        push_u32(&mut body, order, self.time.get());
        push_u32(&mut body, order, self.root.id().get());
        push_u32(&mut body, order, self.event.id().get());
        push_u32(&mut body, order, self.child.id().get());
        push_i16(&mut body, order, self.root_x);
        push_i16(&mut body, order, self.root_y);
        push_i16(&mut body, order, self.event_x);
        push_i16(&mut body, order, self.event_y);
        push_u16(&mut body, order, self.state);
        body.push(self.mode);
        body.push(self.same_screen_focus);
        assert(body@ =~= self.spec_body(order));
        body
    }

    /// Writes the event into `buffer` with its integers in `order`.
    pub fn encode_with_order(&self, buffer: &mut [u8], order: ByteOrder)
        requires
            old(buffer)@.len() >= 32,
        ensures
            final(buffer)@ == self.spec_written(old(buffer)@, order),
    {
        let body = self.body(order);
        write_event(buffer, 8, 1, body.as_slice());
    }

    /// Writes the event into `buffer` in the machine's native byte order.
    pub fn encode(&self, buffer: &mut [u8])
        requires
            old(buffer)@.len() >= 32,
        ensures
            final(buffer)@ == self.spec_written(old(buffer)@, ByteOrder::LSBFirst) || final(buffer)@
                == self.spec_written(old(buffer)@, ByteOrder::MSBFirst),
    {
        self.encode_with_order(buffer, ByteOrder::native());
    }
}

/// Input focus gained (event code 9).
#[derive(Debug, Clone)]
pub struct FocusInEvent {
    pub detail: u8,
    pub sequence: u16,
    pub event: Window,
    pub mode: u8,
}

impl FocusInEvent {
    /// The bytes that the event writes from offset 1 on.
    pub open spec fn spec_body(self, order: ByteOrder) -> Seq<u8> {
        seq![self.detail]
            + u16_bytes(order, self.sequence)
            + u32_bytes(order, self.event.0.0)
            + seq![self.mode]
    }

    /// `buffer` with the event written into it in `order`.
    pub open spec fn spec_written(self, buffer: Seq<u8>, order: ByteOrder) -> Seq<u8> {
        written(buffer, 9, 1, self.spec_body(order))
    }

    fn body(&self, order: ByteOrder) -> (r: Vec<u8>)
        ensures
            r@ == self.spec_body(order),
            r@.len() == 8,
    {
        let mut body: Vec<u8> = Vec::new();
        body.push(self.detail);
        push_u16(&mut body, order, self.sequence);
        push_u32(&mut body, order, self.event.id().get());
        body.push(self.mode);
        assert(body@ =~= self.spec_body(order));
        body
    }

    /// Writes the event into `buffer` with its integers in `order`.
    pub fn encode_with_order(&self, buffer: &mut [u8], order: ByteOrder)
        requires
            old(buffer)@.len() >= 9,
        ensures
            final(buffer)@ == self.spec_written(old(buffer)@, order),
    {
        let body = self.body(order);
        write_event(buffer, 9, 1, body.as_slice());
    }

    /// Writes the event into `buffer` in the machine's native byte order.
    pub fn encode(&self, buffer: &mut [u8])
        requires
            old(buffer)@.len() >= 9,
        ensures
            final(buffer)@ == self.spec_written(old(buffer)@, ByteOrder::LSBFirst) || final(buffer)@
                == self.spec_written(old(buffer)@, ByteOrder::MSBFirst),
    {
        self.encode_with_order(buffer, ByteOrder::native());
    }
}

/// Input focus lost (event code 10).
#[derive(Debug, Clone)]
pub struct FocusOutEvent {
    pub detail: u8,
    pub sequence: u16,
    pub event: Window,
    pub mode: u8,
}

impl FocusOutEvent {
    /// The bytes that the event writes from offset 1 on.
    pub open spec fn spec_body(self, order: ByteOrder) -> Seq<u8> {
        seq![self.detail]
            + u16_bytes(order, self.sequence)
            + u32_bytes(order, self.event.0.0)
            + seq![self.mode]
    }

    /// `buffer` with the event written into it in `order`.
    pub open spec fn spec_written(self, buffer: Seq<u8>, order: ByteOrder) -> Seq<u8> {
        written(buffer, 10, 1, self.spec_body(order))
    }

    fn body(&self, order: ByteOrder) -> (r: Vec<u8>)
        ensures
            r@ == self.spec_body(order),
            r@.len() == 8,
    {
        let mut body: Vec<u8> = Vec::new();
        body.push(self.detail);
        push_u16(&mut body, order, self.sequence);
        push_u32(&mut body, order, self.event.id().get());
        body.push(self.mode);
        assert(body@ =~= self.spec_body(order));
        body
    }

    /// Writes the event into `buffer` with its integers in `order`.
    pub fn encode_with_order(&self, buffer: &mut [u8], order: ByteOrder)
        requires
            old(buffer)@.len() >= 9,
        ensures
            final(buffer)@ == self.spec_written(old(buffer)@, order),
    {
        let body = self.body(order);
        write_event(buffer, 10, 1, body.as_slice());
    }

    /// Writes the event into `buffer` in the machine's native byte order.
    pub fn encode(&self, buffer: &mut [u8])
        requires
            old(buffer)@.len() >= 9,
        ensures
            final(buffer)@ == self.spec_written(old(buffer)@, ByteOrder::LSBFirst) || final(buffer)@
                == self.spec_written(old(buffer)@, ByteOrder::MSBFirst),
    {
        self.encode_with_order(buffer, ByteOrder::native());
    }
}

/// A window region to redraw (event code 12).
#[derive(Debug, Clone)]
pub struct ExposeEvent {
    pub sequence: u16,
    pub window: Window,
    pub x: u16,
    pub y: u16,
    pub width: u16,
    pub height: u16,
    /// Number of expose events that follow
    pub count: u16,
}

impl ExposeEvent {
    /// The bytes that the event writes from offset 2 on.
    pub open spec fn spec_body(self, order: ByteOrder) -> Seq<u8> {
        u16_bytes(order, self.sequence)
            + u32_bytes(order, self.window.0.0)
            + u16_bytes(order, self.x)
            + u16_bytes(order, self.y)
            + u16_bytes(order, self.width)
            + u16_bytes(order, self.height)
            + u16_bytes(order, self.count)
    }

    /// `buffer` with the event written into it in `order`.
    pub open spec fn spec_written(self, buffer: Seq<u8>, order: ByteOrder) -> Seq<u8> {
        written(buffer, 12, 2, self.spec_body(order))
    }

    fn body(&self, order: ByteOrder) -> (r: Vec<u8>)
        ensures
            r@ == self.spec_body(order),
            r@.len() == 16,
    {
        let mut body: Vec<u8> = Vec::new();
        push_u16(&mut body, order, self.sequence);
        push_u32(&mut body, order, self.window.id().get());
        push_u16(&mut body, order, self.x);
        push_u16(&mut body, order, self.y);
        push_u16(&mut body, order, self.width);
        push_u16(&mut body, order, self.height);
        push_u16(&mut body, order, self.count);
        assert(body@ =~= self.spec_body(order));
        body
    }

    /// Writes the event into `buffer` with its integers in `order`.
    pub fn encode_with_order(&self, buffer: &mut [u8], order: ByteOrder)
        requires
            old(buffer)@.len() >= 18,
        ensures
            final(buffer)@ == self.spec_written(old(buffer)@, order),
    {
        let body = self.body(order);
        write_event(buffer, 12, 2, body.as_slice());
    }

    /// Writes the event into `buffer` in the machine's native byte order.
    pub fn encode(&self, buffer: &mut [u8])
        requires
            old(buffer)@.len() >= 18,
        ensures
            final(buffer)@ == self.spec_written(old(buffer)@, ByteOrder::LSBFirst) || final(buffer)@
                == self.spec_written(old(buffer)@, ByteOrder::MSBFirst),
    {
        self.encode_with_order(buffer, ByteOrder::native());
    }
}

/// A region that a copy could not fill from its source (event code 13).
#[derive(Debug, Clone)]
pub struct GraphicsExposureEvent {
    pub sequence: u16,
    pub drawable: Drawable,
    pub x: u16,
    pub y: u16,
    pub width: u16,
    pub height: u16,
    pub minor_opcode: u16,
    pub count: u16,
    pub major_opcode: u8,
}

impl GraphicsExposureEvent {
    /// The bytes that the event writes from offset 2 on.
    pub open spec fn spec_body(self, order: ByteOrder) -> Seq<u8> {
        u16_bytes(order, self.sequence)
            + u32_bytes(order, self.drawable.spec_id().0)
            + u16_bytes(order, self.x)
            + u16_bytes(order, self.y)
            + u16_bytes(order, self.width)
            + u16_bytes(order, self.height)
            + u16_bytes(order, self.minor_opcode)
            + u16_bytes(order, self.count)
            + seq![self.major_opcode]
    }

    /// `buffer` with the event written into it in `order`.
    pub open spec fn spec_written(self, buffer: Seq<u8>, order: ByteOrder) -> Seq<u8> {
        written(buffer, 13, 2, self.spec_body(order))
    }

    fn body(&self, order: ByteOrder) -> (r: Vec<u8>)
        ensures
            r@ == self.spec_body(order),
            r@.len() == 19,
    {
        let mut body: Vec<u8> = Vec::new();
        push_u16(&mut body, order, self.sequence);
        push_u32(&mut body, order, self.drawable.id().get());
        push_u16(&mut body, order, self.x);
        push_u16(&mut body, order, self.y);
        push_u16(&mut body, order, self.width);
        push_u16(&mut body, order, self.height);
        push_u16(&mut body, order, self.minor_opcode);
        push_u16(&mut body, order, self.count);
        body.push(self.major_opcode);
        assert(body@ =~= self.spec_body(order));
        body
    }

    /// Writes the event into `buffer` with its integers in `order`.
    pub fn encode_with_order(&self, buffer: &mut [u8], order: ByteOrder)
        requires
            old(buffer)@.len() >= 21,
        ensures
            final(buffer)@ == self.spec_written(old(buffer)@, order),
    {
        let body = self.body(order);
        write_event(buffer, 13, 2, body.as_slice());
    }

    /// Writes the event into `buffer` in the machine's native byte order.
    pub fn encode(&self, buffer: &mut [u8])
        requires
            old(buffer)@.len() >= 21,
        ensures
            final(buffer)@ == self.spec_written(old(buffer)@, ByteOrder::LSBFirst) || final(buffer)@
                == self.spec_written(old(buffer)@, ByteOrder::MSBFirst),
    {
        self.encode_with_order(buffer, ByteOrder::native());
    }
}

/// A copy that needed no exposures (event code 14).
#[derive(Debug, Clone)]
pub struct NoExposureEvent {
    pub sequence: u16,
    pub drawable: Drawable,
    pub minor_opcode: u16,
    pub major_opcode: u8,
}

impl NoExposureEvent {
    /// The bytes that the event writes from offset 2 on.
    pub open spec fn spec_body(self, order: ByteOrder) -> Seq<u8> {
        u16_bytes(order, self.sequence)
            + u32_bytes(order, self.drawable.spec_id().0)
            + u16_bytes(order, self.minor_opcode)
            + seq![self.major_opcode]
    }

    /// `buffer` with the event written into it in `order`.
    pub open spec fn spec_written(self, buffer: Seq<u8>, order: ByteOrder) -> Seq<u8> {
        written(buffer, 14, 2, self.spec_body(order))
    }

    fn body(&self, order: ByteOrder) -> (r: Vec<u8>)
        ensures
            r@ == self.spec_body(order),
            r@.len() == 9,
    {
        let mut body: Vec<u8> = Vec::new();
        push_u16(&mut body, order, self.sequence);
        push_u32(&mut body, order, self.drawable.id().get());
        push_u16(&mut body, order, self.minor_opcode);
        body.push(self.major_opcode);
        assert(body@ =~= self.spec_body(order));
        body
    }

    /// Writes the event into `buffer` with its integers in `order`.
    pub fn encode_with_order(&self, buffer: &mut [u8], order: ByteOrder)
        requires
            old(buffer)@.len() >= 11,
        ensures
            final(buffer)@ == self.spec_written(old(buffer)@, order),
    {
        let body = self.body(order);
        write_event(buffer, 14, 2, body.as_slice());
    }

    /// Writes the event into `buffer` in the machine's native byte order.
    pub fn encode(&self, buffer: &mut [u8])
        requires
            old(buffer)@.len() >= 11,
        ensures
            final(buffer)@ == self.spec_written(old(buffer)@, ByteOrder::LSBFirst) || final(buffer)@
                == self.spec_written(old(buffer)@, ByteOrder::MSBFirst),
    {
        self.encode_with_order(buffer, ByteOrder::native());
    }
}

/// A window was created (event code 16).
#[derive(Debug, Clone)]
pub struct CreateNotifyEvent {
    pub sequence: u16,
    pub parent: Window,
    pub window: Window,
    pub x: i16,
    pub y: i16,
    pub width: u16,
    pub height: u16,
    pub border_width: u16,
    pub override_redirect: bool,
}

impl CreateNotifyEvent {
    /// The bytes that the event writes from offset 2 on.
    pub open spec fn spec_body(self, order: ByteOrder) -> Seq<u8> {
        u16_bytes(order, self.sequence)
            + u32_bytes(order, self.parent.0.0)
            + u32_bytes(order, self.window.0.0)
            + i16_bytes(order, self.x)
            + i16_bytes(order, self.y)
            + u16_bytes(order, self.width)
            + u16_bytes(order, self.height)
            + u16_bytes(order, self.border_width)
            + seq![if self.override_redirect { 1u8 } else { 0u8 }]
    }

    /// `buffer` with the event written into it in `order`.
    pub open spec fn spec_written(self, buffer: Seq<u8>, order: ByteOrder) -> Seq<u8> {
        written(buffer, 16, 2, self.spec_body(order))
    }

    fn body(&self, order: ByteOrder) -> (r: Vec<u8>)
        ensures
            r@ == self.spec_body(order),
            r@.len() == 21,
    {
        let mut body: Vec<u8> = Vec::new();
        push_u16(&mut body, order, self.sequence);
        push_u32(&mut body, order, self.parent.id().get());
        push_u32(&mut body, order, self.window.id().get());
        push_i16(&mut body, order, self.x);
        push_i16(&mut body, order, self.y);
        push_u16(&mut body, order, self.width);
        push_u16(&mut body, order, self.height);
        push_u16(&mut body, order, self.border_width);
        body.push(if self.override_redirect { 1u8 } else { 0u8 });
        assert(body@ =~= self.spec_body(order));
        body
    }

    /// Writes the event into `buffer` with its integers in `order`.
    pub fn encode_with_order(&self, buffer: &mut [u8], order: ByteOrder)
        requires
            old(buffer)@.len() >= 23,
        ensures
            final(buffer)@ == self.spec_written(old(buffer)@, order),
    {
        let body = self.body(order);
        write_event(buffer, 16, 2, body.as_slice());
    }

    /// Writes the event into `buffer` in the machine's native byte order.
    pub fn encode(&self, buffer: &mut [u8])
        requires
            old(buffer)@.len() >= 23,
        ensures
            final(buffer)@ == self.spec_written(old(buffer)@, ByteOrder::LSBFirst) || final(buffer)@
                == self.spec_written(old(buffer)@, ByteOrder::MSBFirst),
    {
        self.encode_with_order(buffer, ByteOrder::native());
    }
}

/// A window was destroyed (event code 17).
#[derive(Debug, Clone)]
pub struct DestroyNotifyEvent {
    pub sequence: u16,
    pub event: Window,
    pub window: Window,
}

impl DestroyNotifyEvent {
    /// The bytes that the event writes from offset 2 on.
    pub open spec fn spec_body(self, order: ByteOrder) -> Seq<u8> {
        u16_bytes(order, self.sequence)
            + u32_bytes(order, self.event.0.0)
            + u32_bytes(order, self.window.0.0)
    }

    /// `buffer` with the event written into it in `order`.
    pub open spec fn spec_written(self, buffer: Seq<u8>, order: ByteOrder) -> Seq<u8> {
        written(buffer, 17, 2, self.spec_body(order))
    }

    fn body(&self, order: ByteOrder) -> (r: Vec<u8>)
        ensures
            r@ == self.spec_body(order),
            r@.len() == 10,
    {
        let mut body: Vec<u8> = Vec::new();
        push_u16(&mut body, order, self.sequence);
        push_u32(&mut body, order, self.event.id().get());
        push_u32(&mut body, order, self.window.id().get());
        assert(body@ =~= self.spec_body(order));
        body
    }

    /// Writes the event into `buffer` with its integers in `order`.
    pub fn encode_with_order(&self, buffer: &mut [u8], order: ByteOrder)
        requires
            old(buffer)@.len() >= 12,
        ensures
            final(buffer)@ == self.spec_written(old(buffer)@, order),
    {
        let body = self.body(order);
        write_event(buffer, 17, 2, body.as_slice());
    }

    /// Writes the event into `buffer` in the machine's native byte order.
    pub fn encode(&self, buffer: &mut [u8])
        requires
            old(buffer)@.len() >= 12,
        ensures
            final(buffer)@ == self.spec_written(old(buffer)@, ByteOrder::LSBFirst) || final(buffer)@
                == self.spec_written(old(buffer)@, ByteOrder::MSBFirst),
    {
        self.encode_with_order(buffer, ByteOrder::native());
    }
}

/// A window was unmapped (event code 18).
#[derive(Debug, Clone)]
pub struct UnmapNotifyEvent {
    pub sequence: u16,
    pub event: Window,
    pub window: Window,
    pub from_configure: bool,
}

impl UnmapNotifyEvent {
    /// The bytes that the event writes from offset 2 on.
    pub open spec fn spec_body(self, order: ByteOrder) -> Seq<u8> {
        u16_bytes(order, self.sequence)
            + u32_bytes(order, self.event.0.0)
            + u32_bytes(order, self.window.0.0)
            + seq![if self.from_configure { 1u8 } else { 0u8 }]
    }

    /// `buffer` with the event written into it in `order`.
    pub open spec fn spec_written(self, buffer: Seq<u8>, order: ByteOrder) -> Seq<u8> {
        written(buffer, 18, 2, self.spec_body(order))
    }

    fn body(&self, order: ByteOrder) -> (r: Vec<u8>)
        ensures
            r@ == self.spec_body(order),
            r@.len() == 11,
    {
        let mut body: Vec<u8> = Vec::new();
        push_u16(&mut body, order, self.sequence);
        push_u32(&mut body, order, self.event.id().get());
        push_u32(&mut body, order, self.window.id().get());
        body.push(if self.from_configure { 1u8 } else { 0u8 });
        assert(body@ =~= self.spec_body(order));
        body
    }

    /// Writes the event into `buffer` with its integers in `order`.
    pub fn encode_with_order(&self, buffer: &mut [u8], order: ByteOrder)
        requires
            old(buffer)@.len() >= 13,
        ensures
            final(buffer)@ == self.spec_written(old(buffer)@, order),
    {
        let body = self.body(order);
        write_event(buffer, 18, 2, body.as_slice());
    }

    /// Writes the event into `buffer` in the machine's native byte order.
    pub fn encode(&self, buffer: &mut [u8])
        requires
            old(buffer)@.len() >= 13,
        ensures
            final(buffer)@ == self.spec_written(old(buffer)@, ByteOrder::LSBFirst) || final(buffer)@
                == self.spec_written(old(buffer)@, ByteOrder::MSBFirst),
    {
        self.encode_with_order(buffer, ByteOrder::native());
    }
}

/// A window was mapped (event code 19).
#[derive(Debug, Clone)]
pub struct MapNotifyEvent {
    pub sequence: u16,
    pub event: Window,
    pub window: Window,
    pub override_redirect: bool,
}

impl MapNotifyEvent {
    /// The bytes that the event writes from offset 2 on.
    pub open spec fn spec_body(self, order: ByteOrder) -> Seq<u8> {
        u16_bytes(order, self.sequence)
            + u32_bytes(order, self.event.0.0)
            + u32_bytes(order, self.window.0.0)
            + seq![if self.override_redirect { 1u8 } else { 0u8 }]
    }

    /// `buffer` with the event written into it in `order`.
    pub open spec fn spec_written(self, buffer: Seq<u8>, order: ByteOrder) -> Seq<u8> {
        written(buffer, 19, 2, self.spec_body(order))
    }

    fn body(&self, order: ByteOrder) -> (r: Vec<u8>)
        ensures
            r@ == self.spec_body(order),
            r@.len() == 11,
    {
        let mut body: Vec<u8> = Vec::new();
        push_u16(&mut body, order, self.sequence);
        push_u32(&mut body, order, self.event.id().get());
        push_u32(&mut body, order, self.window.id().get());
        body.push(if self.override_redirect { 1u8 } else { 0u8 });
        assert(body@ =~= self.spec_body(order));
        body
    }

    /// Writes the event into `buffer` with its integers in `order`.
    pub fn encode_with_order(&self, buffer: &mut [u8], order: ByteOrder)
        requires
            old(buffer)@.len() >= 13,
        ensures
            final(buffer)@ == self.spec_written(old(buffer)@, order),
    {
        let body = self.body(order);
        write_event(buffer, 19, 2, body.as_slice());
    }

    /// Writes the event into `buffer` in the machine's native byte order.
    pub fn encode(&self, buffer: &mut [u8])
        requires
            old(buffer)@.len() >= 13,
        ensures
            final(buffer)@ == self.spec_written(old(buffer)@, ByteOrder::LSBFirst) || final(buffer)@
                == self.spec_written(old(buffer)@, ByteOrder::MSBFirst),
    {
        self.encode_with_order(buffer, ByteOrder::native());
    }
}

/// A client asked to map a window (event code 20).
#[derive(Debug, Clone)]
pub struct MapRequestEvent {
    pub sequence: u16,
    pub parent: Window,
    pub window: Window,
}

impl MapRequestEvent {
    /// The bytes that the event writes from offset 2 on.
    pub open spec fn spec_body(self, order: ByteOrder) -> Seq<u8> {
        u16_bytes(order, self.sequence)
            + u32_bytes(order, self.parent.0.0)
            + u32_bytes(order, self.window.0.0)
    }

    /// `buffer` with the event written into it in `order`.
    pub open spec fn spec_written(self, buffer: Seq<u8>, order: ByteOrder) -> Seq<u8> {
        written(buffer, 20, 2, self.spec_body(order))
    }

    fn body(&self, order: ByteOrder) -> (r: Vec<u8>)
        ensures
            r@ == self.spec_body(order),
            r@.len() == 10,
    {
        let mut body: Vec<u8> = Vec::new();
        push_u16(&mut body, order, self.sequence);
        push_u32(&mut body, order, self.parent.id().get());
        push_u32(&mut body, order, self.window.id().get());
        assert(body@ =~= self.spec_body(order));
        body
    }

    /// Writes the event into `buffer` with its integers in `order`.
    pub fn encode_with_order(&self, buffer: &mut [u8], order: ByteOrder)
        requires
            old(buffer)@.len() >= 12,
        ensures
            final(buffer)@ == self.spec_written(old(buffer)@, order),
    {
        let body = self.body(order);
        write_event(buffer, 20, 2, body.as_slice());
    }

    /// Writes the event into `buffer` in the machine's native byte order.
    pub fn encode(&self, buffer: &mut [u8])
        requires
            old(buffer)@.len() >= 12,
        ensures
            final(buffer)@ == self.spec_written(old(buffer)@, ByteOrder::LSBFirst) || final(buffer)@
                == self.spec_written(old(buffer)@, ByteOrder::MSBFirst),
    {
        self.encode_with_order(buffer, ByteOrder::native());
    }
}

/// A window was reparented (event code 21).
#[derive(Debug, Clone)]
pub struct ReparentNotifyEvent {
    pub sequence: u16,
    pub event: Window,
    pub window: Window,
    pub parent: Window,
    pub x: i16,
    pub y: i16,
    pub override_redirect: bool,
}

impl ReparentNotifyEvent {
    /// The bytes that the event writes from offset 2 on.
    pub open spec fn spec_body(self, order: ByteOrder) -> Seq<u8> {
        u16_bytes(order, self.sequence)
            + u32_bytes(order, self.event.0.0)
            + u32_bytes(order, self.window.0.0)
            + u32_bytes(order, self.parent.0.0)
            + i16_bytes(order, self.x)
            + i16_bytes(order, self.y)
            + seq![if self.override_redirect { 1u8 } else { 0u8 }]
    }

    /// `buffer` with the event written into it in `order`.
    pub open spec fn spec_written(self, buffer: Seq<u8>, order: ByteOrder) -> Seq<u8> {
        written(buffer, 21, 2, self.spec_body(order))
    }

    fn body(&self, order: ByteOrder) -> (r: Vec<u8>)
        ensures
            r@ == self.spec_body(order),
            r@.len() == 19,
    {
        let mut body: Vec<u8> = Vec::new();
        push_u16(&mut body, order, self.sequence);
        push_u32(&mut body, order, self.event.id().get());
        push_u32(&mut body, order, self.window.id().get());
        push_u32(&mut body, order, self.parent.id().get());
        push_i16(&mut body, order, self.x);
        push_i16(&mut body, order, self.y);
        body.push(if self.override_redirect { 1u8 } else { 0u8 });
        assert(body@ =~= self.spec_body(order));
        body
    }

    /// Writes the event into `buffer` with its integers in `order`.
    pub fn encode_with_order(&self, buffer: &mut [u8], order: ByteOrder)
        requires
            old(buffer)@.len() >= 21,
        ensures
            final(buffer)@ == self.spec_written(old(buffer)@, order),
    {
        let body = self.body(order);
        write_event(buffer, 21, 2, body.as_slice());
    }

    /// Writes the event into `buffer` in the machine's native byte order.
    pub fn encode(&self, buffer: &mut [u8])
        requires
            old(buffer)@.len() >= 21,
        ensures
            final(buffer)@ == self.spec_written(old(buffer)@, ByteOrder::LSBFirst) || final(buffer)@
                == self.spec_written(old(buffer)@, ByteOrder::MSBFirst),
    {
        self.encode_with_order(buffer, ByteOrder::native());
    }
}

/// A window changed size, position, border or stacking (event code 22).
#[derive(Debug, Clone)]
pub struct ConfigureNotifyEvent {
    pub sequence: u16,
    pub event: Window,
    pub window: Window,
    pub above_sibling: Window,
    pub x: i16,
    pub y: i16,
    pub width: u16,
    pub height: u16,
    pub border_width: u16,
    pub override_redirect: bool,
}

impl ConfigureNotifyEvent {
    /// The bytes that the event writes from offset 2 on.
    pub open spec fn spec_body(self, order: ByteOrder) -> Seq<u8> {
        u16_bytes(order, self.sequence)
            + u32_bytes(order, self.event.0.0)
            + u32_bytes(order, self.window.0.0)
            + u32_bytes(order, self.above_sibling.0.0)
            + i16_bytes(order, self.x)
            + i16_bytes(order, self.y)
            + u16_bytes(order, self.width)
            + u16_bytes(order, self.height)
            + u16_bytes(order, self.border_width)
            + seq![if self.override_redirect { 1u8 } else { 0u8 }]
    }

    /// `buffer` with the event written into it in `order`.
    pub open spec fn spec_written(self, buffer: Seq<u8>, order: ByteOrder) -> Seq<u8> {
        written(buffer, 22, 2, self.spec_body(order))
    }

    fn body(&self, order: ByteOrder) -> (r: Vec<u8>)
        ensures
            r@ == self.spec_body(order),
            r@.len() == 25,
    {
        let mut body: Vec<u8> = Vec::new();
        push_u16(&mut body, order, self.sequence);
        push_u32(&mut body, order, self.event.id().get());
        push_u32(&mut body, order, self.window.id().get());
        push_u32(&mut body, order, self.above_sibling.id().get());
        push_i16(&mut body, order, self.x);
        push_i16(&mut body, order, self.y);
        push_u16(&mut body, order, self.width);
        push_u16(&mut body, order, self.height);
        push_u16(&mut body, order, self.border_width);
        body.push(if self.override_redirect { 1u8 } else { 0u8 });
        assert(body@ =~= self.spec_body(order));
        body
    }

    /// Writes the event into `buffer` with its integers in `order`.
    pub fn encode_with_order(&self, buffer: &mut [u8], order: ByteOrder)
        requires
            old(buffer)@.len() >= 27,
        ensures
            final(buffer)@ == self.spec_written(old(buffer)@, order),
    {
        let body = self.body(order);
        write_event(buffer, 22, 2, body.as_slice());
    }

    /// Writes the event into `buffer` in the machine's native byte order.
    pub fn encode(&self, buffer: &mut [u8])
        requires
            old(buffer)@.len() >= 27,
        ensures
            final(buffer)@ == self.spec_written(old(buffer)@, ByteOrder::LSBFirst) || final(buffer)@
                == self.spec_written(old(buffer)@, ByteOrder::MSBFirst),
    {
        self.encode_with_order(buffer, ByteOrder::native());
    }
}

/// A client asked to configure a window (event code 23).
#[derive(Debug, Clone)]
pub struct ConfigureRequestEvent {
    pub sequence: u16,
    pub stack_mode: u8,
    pub parent: Window,
    pub window: Window,
    pub sibling: Window,
    pub x: i16,
    pub y: i16,
    pub width: u16,
    pub height: u16,
    pub border_width: u16,
    pub value_mask: u16,
}

impl ConfigureRequestEvent {
    /// The bytes that the event writes from offset 1 on.
    pub open spec fn spec_body(self, order: ByteOrder) -> Seq<u8> {
        seq![self.stack_mode]
            + u16_bytes(order, self.sequence)
            + u32_bytes(order, self.parent.0.0)
            + u32_bytes(order, self.window.0.0)
            + u32_bytes(order, self.sibling.0.0)
            + i16_bytes(order, self.x)
            + i16_bytes(order, self.y)
            + u16_bytes(order, self.width)
            + u16_bytes(order, self.height)
            + u16_bytes(order, self.border_width)
            + u16_bytes(order, self.value_mask)
    }

    /// `buffer` with the event written into it in `order`.
    pub open spec fn spec_written(self, buffer: Seq<u8>, order: ByteOrder) -> Seq<u8> {
        written(buffer, 23, 1, self.spec_body(order))
    }

    fn body(&self, order: ByteOrder) -> (r: Vec<u8>)
        ensures
            r@ == self.spec_body(order),
            r@.len() == 27,
    {
        let mut body: Vec<u8> = Vec::new();
        body.push(self.stack_mode);
        push_u16(&mut body, order, self.sequence);
        push_u32(&mut body, order, self.parent.id().get());
        push_u32(&mut body, order, self.window.id().get());
        push_u32(&mut body, order, self.sibling.id().get());
        push_i16(&mut body, order, self.x);
        push_i16(&mut body, order, self.y);
        push_u16(&mut body, order, self.width);
        push_u16(&mut body, order, self.height);
        push_u16(&mut body, order, self.border_width);
        push_u16(&mut body, order, self.value_mask);
        assert(body@ =~= self.spec_body(order));
        body
    }

    /// Writes the event into `buffer` with its integers in `order`.
    pub fn encode_with_order(&self, buffer: &mut [u8], order: ByteOrder)
        requires
            old(buffer)@.len() >= 28,
        ensures
            final(buffer)@ == self.spec_written(old(buffer)@, order),
    {
        let body = self.body(order);
        write_event(buffer, 23, 1, body.as_slice());
    }

    /// Writes the event into `buffer` in the machine's native byte order.
    pub fn encode(&self, buffer: &mut [u8])
        requires
            old(buffer)@.len() >= 28,
        ensures
            final(buffer)@ == self.spec_written(old(buffer)@, ByteOrder::LSBFirst) || final(buffer)@
                == self.spec_written(old(buffer)@, ByteOrder::MSBFirst),
    {
        self.encode_with_order(buffer, ByteOrder::native());
    }
}

/// A window property changed (event code 28).
#[derive(Debug, Clone)]
pub struct PropertyNotifyEvent {
    pub sequence: u16,
    pub window: Window,
    pub atom: Atom,
    pub time: Timestamp,
    /// NewValue or Deleted
    pub state: u8,
}

impl PropertyNotifyEvent {
    /// The bytes that the event writes from offset 2 on.
    pub open spec fn spec_body(self, order: ByteOrder) -> Seq<u8> {
        u16_bytes(order, self.sequence)
            + u32_bytes(order, self.window.0.0)
            + u32_bytes(order, self.atom.0)
            + u32_bytes(order, self.time.0)
            + seq![self.state]
    }

    /// `buffer` with the event written into it in `order`.
    pub open spec fn spec_written(self, buffer: Seq<u8>, order: ByteOrder) -> Seq<u8> {
        written(buffer, 28, 2, self.spec_body(order))
    }

    fn body(&self, order: ByteOrder) -> (r: Vec<u8>)
        ensures
            r@ == self.spec_body(order),
            r@.len() == 15,
    {
        let mut body: Vec<u8> = Vec::new();
        push_u16(&mut body, order, self.sequence);
        push_u32(&mut body, order, self.window.id().get());
        push_u32(&mut body, order, self.atom.get());
        push_u32(&mut body, order, self.time.get());
        body.push(self.state);
        assert(body@ =~= self.spec_body(order));
        body
    }

    /// Writes the event into `buffer` with its integers in `order`.
    pub fn encode_with_order(&self, buffer: &mut [u8], order: ByteOrder)
        requires
            old(buffer)@.len() >= 17,
        ensures
            final(buffer)@ == self.spec_written(old(buffer)@, order),
    {
        let body = self.body(order);
        write_event(buffer, 28, 2, body.as_slice());
    }

    /// Writes the event into `buffer` in the machine's native byte order.
    pub fn encode(&self, buffer: &mut [u8])
        requires
            old(buffer)@.len() >= 17,
        ensures
            final(buffer)@ == self.spec_written(old(buffer)@, ByteOrder::LSBFirst) || final(buffer)@
                == self.spec_written(old(buffer)@, ByteOrder::MSBFirst),
    {
        self.encode_with_order(buffer, ByteOrder::native());
    }
}

/// A selection owner lost the selection (event code 29).
#[derive(Debug, Clone)]
pub struct SelectionClearEvent {
    pub sequence: u16,
    pub time: Timestamp,
    pub owner: Window,
    pub selection: Atom,
}

impl SelectionClearEvent {
    /// The bytes that the event writes from offset 2 on.
    pub open spec fn spec_body(self, order: ByteOrder) -> Seq<u8> {
        u16_bytes(order, self.sequence)
            + u32_bytes(order, self.time.0)
            + u32_bytes(order, self.owner.0.0)
            + u32_bytes(order, self.selection.0)
    }

    /// `buffer` with the event written into it in `order`.
    pub open spec fn spec_written(self, buffer: Seq<u8>, order: ByteOrder) -> Seq<u8> {
        written(buffer, 29, 2, self.spec_body(order))
    }

    fn body(&self, order: ByteOrder) -> (r: Vec<u8>)
        ensures
            r@ == self.spec_body(order),
            r@.len() == 14,
    {
        let mut body: Vec<u8> = Vec::new();
        push_u16(&mut body, order, self.sequence);
        push_u32(&mut body, order, self.time.get());
        push_u32(&mut body, order, self.owner.id().get());
        push_u32(&mut body, order, self.selection.get());
        assert(body@ =~= self.spec_body(order));
        body
    }

    /// Writes the event into `buffer` with its integers in `order`.
    pub fn encode_with_order(&self, buffer: &mut [u8], order: ByteOrder)
        requires
            old(buffer)@.len() >= 16,
        ensures
            final(buffer)@ == self.spec_written(old(buffer)@, order),
    {
        let body = self.body(order);
        write_event(buffer, 29, 2, body.as_slice());
    }

    /// Writes the event into `buffer` in the machine's native byte order.
    pub fn encode(&self, buffer: &mut [u8])
        requires
            old(buffer)@.len() >= 16,
        ensures
            final(buffer)@ == self.spec_written(old(buffer)@, ByteOrder::LSBFirst) || final(buffer)@
                == self.spec_written(old(buffer)@, ByteOrder::MSBFirst),
    {
        self.encode_with_order(buffer, ByteOrder::native());
    }
}

/// A client asked for a selection to be converted (event code 30).
#[derive(Debug, Clone)]
pub struct SelectionRequestEvent {
    pub sequence: u16,
    pub time: Timestamp,
    pub owner: Window,
    pub requestor: Window,
    pub selection: Atom,
    pub target: Atom,
    pub property: Atom,
}

impl SelectionRequestEvent {
    /// The bytes that the event writes from offset 2 on.
    pub open spec fn spec_body(self, order: ByteOrder) -> Seq<u8> {
        u16_bytes(order, self.sequence)
            + u32_bytes(order, self.time.0)
            + u32_bytes(order, self.owner.0.0)
            + u32_bytes(order, self.requestor.0.0)
            + u32_bytes(order, self.selection.0)
            + u32_bytes(order, self.target.0)
            + u32_bytes(order, self.property.0)
    }

    /// `buffer` with the event written into it in `order`.
    pub open spec fn spec_written(self, buffer: Seq<u8>, order: ByteOrder) -> Seq<u8> {
        written(buffer, 30, 2, self.spec_body(order))
    }

    fn body(&self, order: ByteOrder) -> (r: Vec<u8>)
        ensures
            r@ == self.spec_body(order),
            r@.len() == 26,
    {
        let mut body: Vec<u8> = Vec::new();
        push_u16(&mut body, order, self.sequence);
        push_u32(&mut body, order, self.time.get());
        push_u32(&mut body, order, self.owner.id().get());
        push_u32(&mut body, order, self.requestor.id().get());
        push_u32(&mut body, order, self.selection.get());
        push_u32(&mut body, order, self.target.get());
        push_u32(&mut body, order, self.property.get());
        assert(body@ =~= self.spec_body(order));
        body
    }

    /// Writes the event into `buffer` with its integers in `order`.
    pub fn encode_with_order(&self, buffer: &mut [u8], order: ByteOrder)
        requires
            old(buffer)@.len() >= 28,
        ensures
            final(buffer)@ == self.spec_written(old(buffer)@, order),
    {
        let body = self.body(order);
        write_event(buffer, 30, 2, body.as_slice());
    }

    /// Writes the event into `buffer` in the machine's native byte order.
    pub fn encode(&self, buffer: &mut [u8])
        requires
            old(buffer)@.len() >= 28,
        ensures
            final(buffer)@ == self.spec_written(old(buffer)@, ByteOrder::LSBFirst) || final(buffer)@
                == self.spec_written(old(buffer)@, ByteOrder::MSBFirst),
    {
        self.encode_with_order(buffer, ByteOrder::native());
    }
}

/// The answer to a selection conversion (event code 31).
#[derive(Debug, Clone)]
pub struct SelectionNotifyEvent {
    pub sequence: u16,
    pub time: Timestamp,
    pub requestor: Window,
    pub selection: Atom,
    pub target: Atom,
    pub property: Atom,
}

impl SelectionNotifyEvent {
    /// The bytes that the event writes from offset 2 on.
    pub open spec fn spec_body(self, order: ByteOrder) -> Seq<u8> {
        u16_bytes(order, self.sequence)
            + u32_bytes(order, self.time.0)
            + u32_bytes(order, self.requestor.0.0)
            + u32_bytes(order, self.selection.0)
            + u32_bytes(order, self.target.0)
            + u32_bytes(order, self.property.0)
    }

    /// `buffer` with the event written into it in `order`.
    pub open spec fn spec_written(self, buffer: Seq<u8>, order: ByteOrder) -> Seq<u8> {
        written(buffer, 31, 2, self.spec_body(order))
    }

    fn body(&self, order: ByteOrder) -> (r: Vec<u8>)
        ensures
            r@ == self.spec_body(order),
            r@.len() == 22,
    {
        let mut body: Vec<u8> = Vec::new();
        push_u16(&mut body, order, self.sequence);
        push_u32(&mut body, order, self.time.get());
        push_u32(&mut body, order, self.requestor.id().get());
        push_u32(&mut body, order, self.selection.get());
        push_u32(&mut body, order, self.target.get());
        push_u32(&mut body, order, self.property.get());
        assert(body@ =~= self.spec_body(order));
        body
    }

    /// Writes the event into `buffer` with its integers in `order`.
    pub fn encode_with_order(&self, buffer: &mut [u8], order: ByteOrder)
        requires
            old(buffer)@.len() >= 24,
        ensures
            final(buffer)@ == self.spec_written(old(buffer)@, order),
    {
        let body = self.body(order);
        write_event(buffer, 31, 2, body.as_slice());
    }

    /// Writes the event into `buffer` in the machine's native byte order.
    pub fn encode(&self, buffer: &mut [u8])
        requires
            old(buffer)@.len() >= 24,
        ensures
            final(buffer)@ == self.spec_written(old(buffer)@, ByteOrder::LSBFirst) || final(buffer)@
                == self.spec_written(old(buffer)@, ByteOrder::MSBFirst),
    {
        self.encode_with_order(buffer, ByteOrder::native());
    }
}

/// The 20 data bytes of a client message, as bytes, 16-bit or 32-bit values.
#[derive(Debug, Clone)]
pub enum ClientMessageData {
    Data8([u8; 20]),
    Data16([u16; 10]),
    Data32([u32; 5]),
}

/// The bytes of the 16-bit values of `s` in `order`, one after the other.
pub open spec fn u16s_bytes(order: ByteOrder, s: Seq<u16>) -> Seq<u8>
    decreases s.len(),
{
    if s.len() == 0 {
        Seq::empty()
    } else {
        u16s_bytes(order, s.drop_last()) + u16_bytes(order, s.last())
    }
}

/// The bytes of the 32-bit values of `s` in `order`, one after the other.
pub open spec fn u32s_bytes(order: ByteOrder, s: Seq<u32>) -> Seq<u8>
    decreases s.len(),
{
    if s.len() == 0 {
        Seq::empty()
    } else {
        u32s_bytes(order, s.drop_last()) + u32_bytes(order, s.last())
    }
}

proof fn lemma_u16s_len(order: ByteOrder, s: Seq<u16>)
    ensures
        u16s_bytes(order, s).len() == 2 * s.len(),
    decreases s.len(),
{
    if s.len() > 0 {
        lemma_u16s_len(order, s.drop_last());
    }
}

proof fn lemma_u32s_len(order: ByteOrder, s: Seq<u32>)
    ensures
        u32s_bytes(order, s).len() == 4 * s.len(),
    decreases s.len(),
{
    if s.len() > 0 {
        lemma_u32s_len(order, s.drop_last());
    }
}

impl ClientMessageData {
    /// The data are 20 bytes long in either byte order.
    pub proof fn lemma_len(self, order: ByteOrder)
        ensures
            self.spec_bytes(order).len() == 20,
    {
        match self {
            ClientMessageData::Data8(d) => {},
            ClientMessageData::Data16(d) => lemma_u16s_len(order, d@),
            ClientMessageData::Data32(d) => lemma_u32s_len(order, d@),
        }
    }

    /// The data bytes in `order`.
    pub open spec fn spec_bytes(self, order: ByteOrder) -> Seq<u8> {
        match self {
            ClientMessageData::Data8(d) => d@,
            ClientMessageData::Data16(d) => u16s_bytes(order, d@),
            ClientMessageData::Data32(d) => u32s_bytes(order, d@),
        }
    }

    fn push_to(&self, body: &mut Vec<u8>, order: ByteOrder)
        ensures
            final(body)@ == old(body)@ + self.spec_bytes(order),
            self.spec_bytes(order).len() == 20,
    {
        match self {
            ClientMessageData::Data8(d) => {
                let mut i: usize = 0;
                while i < 20
                    invariant
                        i <= 20,
                        d@.len() == 20,
                        body@ == old(body)@ + d@.take(i as int),
                    decreases 20 - i,
                {
                    body.push(d[i]);
                    i = i + 1;
                    assert(d@.take(i as int) =~= d@.take(i - 1) + seq![d@[i - 1]]);
                }
                assert(d@.take(20) =~= d@);
            },
            ClientMessageData::Data16(d) => {
                let mut i: usize = 0;
                while i < 10
                    invariant
                        i <= 10,
                        d@.len() == 10,
                        body@ == old(body)@ + u16s_bytes(order, d@.take(i as int)),
                    decreases 10 - i,
                {
                    push_u16(body, order, d[i]);
                    i = i + 1;
                    assert(d@.take(i as int).drop_last() =~= d@.take(i - 1));
                }
                assert(d@.take(10) =~= d@);
                proof {
                    lemma_u16s_len(order, d@);
                }
            },
            ClientMessageData::Data32(d) => {
                let mut i: usize = 0;
                while i < 5
                    invariant
                        i <= 5,
                        d@.len() == 5,
                        body@ == old(body)@ + u32s_bytes(order, d@.take(i as int)),
                    decreases 5 - i,
                {
                    push_u32(body, order, d[i]);
                    i = i + 1;
                    assert(d@.take(i as int).drop_last() =~= d@.take(i - 1));
                }
                assert(d@.take(5) =~= d@);
                proof {
                    lemma_u32s_len(order, d@);
                }
            },
        }
    }
}

/// A message sent by a client to another (event code 33).
#[derive(Debug, Clone)]
pub struct ClientMessageEvent {
    pub sequence: u16,
    /// 8, 16, or 32
    pub format: u8,
    pub window: Window,
    pub type_: Atom,
    pub data: ClientMessageData,
}

impl ClientMessageEvent {
    /// The bytes that the event writes from offset 1 on.
    pub open spec fn spec_body(self, order: ByteOrder) -> Seq<u8> {
        seq![self.format]
            + u16_bytes(order, self.sequence)
            + u32_bytes(order, self.window.0.0)
            + u32_bytes(order, self.type_.0)
            + self.data.spec_bytes(order)
    }

    /// `buffer` with the event written into it in `order`.
    pub open spec fn spec_written(self, buffer: Seq<u8>, order: ByteOrder) -> Seq<u8> {
        written(buffer, 33, 1, self.spec_body(order))
    }

    fn body(&self, order: ByteOrder) -> (r: Vec<u8>)
        ensures
            r@ == self.spec_body(order),
            r@.len() == 31,
    {
        let mut body: Vec<u8> = Vec::new();
        body.push(self.format);
        push_u16(&mut body, order, self.sequence);
        push_u32(&mut body, order, self.window.id().get());
        push_u32(&mut body, order, self.type_.get());
        self.data.push_to(&mut body, order);
        assert(body@ =~= self.spec_body(order));
        body
    }

    /// Writes the event into `buffer` with its integers in `order`.
    pub fn encode_with_order(&self, buffer: &mut [u8], order: ByteOrder)
        requires
            old(buffer)@.len() >= 32,
        ensures
            final(buffer)@ == self.spec_written(old(buffer)@, order),
    {
        let body = self.body(order);
        write_event(buffer, 33, 1, body.as_slice());
    }

    /// Writes the event into `buffer` in the machine's native byte order.
    pub fn encode(&self, buffer: &mut [u8])
        requires
            old(buffer)@.len() >= 32,
        ensures
            final(buffer)@ == self.spec_written(old(buffer)@, ByteOrder::LSBFirst) || final(buffer)@
                == self.spec_written(old(buffer)@, ByteOrder::MSBFirst),
    {
        self.encode_with_order(buffer, ByteOrder::native());
    }
}

/// An encoded KeyPress event (code 2) carries the detail at 1, the sequence number at 2, the time at 4, the root, event
/// and child windows at 8, 12 and 16, the position in the root at 20 and 22, the
/// position in the event window at 24 and 26, and the key and button state at 28,
/// and whether it is on the same screen at 30.
pub proof fn lemma_key_press_layout(e: KeyPressEvent, order: ByteOrder)
    ensures
        ({
            let r = Event::KeyPress(e).spec_encoded(32, order);
            &&& r.len() == 32
            &&& r[0] == 2
            &&& r[1] == e.detail
            &&& u16_at(order, r, 2) == e.sequence
            &&& u32_at(order, r, 4) == e.time.0
            &&& u32_at(order, r, 8) == e.root.0.0
            &&& u32_at(order, r, 12) == e.event.0.0
            &&& u32_at(order, r, 16) == e.child.0.0
            &&& i16_at(order, r, 20) == e.root_x
            &&& i16_at(order, r, 22) == e.root_y
            &&& i16_at(order, r, 24) == e.event_x
            &&& i16_at(order, r, 26) == e.event_y
            &&& u16_at(order, r, 28) == e.state
            &&& r[30] == (if e.same_screen { 1u8 } else { 0u8 })
        }),
{
    broadcast use group_wire_lengths;

    let ev = Event::KeyPress(e);
    let r = ev.spec_encoded(32, order);
    let body = e.spec_body(order);
    assert(body.len() == 30);
    lemma_written_parts(zeros(32), 2, 1, body);
    assert(r[1] == r.subrange(1, 31)[0]);
    assert(r.subrange(2, 4) =~= body.subrange(1, 3));
    assert(body.subrange(1, 3) =~= u16_bytes(order, e.sequence));
    lemma_u16_read(order, r, 2, e.sequence);
    assert(r.subrange(4, 8) =~= body.subrange(3, 7));
    assert(body.subrange(3, 7) =~= u32_bytes(order, e.time.0));
    lemma_u32_read(order, r, 4, e.time.0);
    assert(r.subrange(8, 12) =~= body.subrange(7, 11));
    assert(body.subrange(7, 11) =~= u32_bytes(order, e.root.0.0));
    lemma_u32_read(order, r, 8, e.root.0.0);
    assert(r.subrange(12, 16) =~= body.subrange(11, 15));
    assert(body.subrange(11, 15) =~= u32_bytes(order, e.event.0.0));
    lemma_u32_read(order, r, 12, e.event.0.0);
    assert(r.subrange(16, 20) =~= body.subrange(15, 19));
    assert(body.subrange(15, 19) =~= u32_bytes(order, e.child.0.0));
    lemma_u32_read(order, r, 16, e.child.0.0);
    assert(r.subrange(20, 22) =~= body.subrange(19, 21));
    assert(body.subrange(19, 21) =~= i16_bytes(order, e.root_x));
    lemma_i16_read(order, r, 20, e.root_x);
    assert(r.subrange(22, 24) =~= body.subrange(21, 23));
    assert(body.subrange(21, 23) =~= i16_bytes(order, e.root_y));
    lemma_i16_read(order, r, 22, e.root_y);
    assert(r.subrange(24, 26) =~= body.subrange(23, 25));
    assert(body.subrange(23, 25) =~= i16_bytes(order, e.event_x));
    lemma_i16_read(order, r, 24, e.event_x);
    assert(r.subrange(26, 28) =~= body.subrange(25, 27));
    assert(body.subrange(25, 27) =~= i16_bytes(order, e.event_y));
    lemma_i16_read(order, r, 26, e.event_y);
    assert(r.subrange(28, 30) =~= body.subrange(27, 29));
    assert(body.subrange(27, 29) =~= u16_bytes(order, e.state));
    lemma_u16_read(order, r, 28, e.state);
    assert(r[30] == r.subrange(1, 31)[29]);
}

/// An encoded KeyRelease event (code 3) carries the detail at 1, the sequence number at 2, the time at 4, the root, event
/// and child windows at 8, 12 and 16, the position in the root at 20 and 22, the
/// position in the event window at 24 and 26, and the key and button state at 28,
/// and whether it is on the same screen at 30.
pub proof fn lemma_key_release_layout(e: KeyReleaseEvent, order: ByteOrder)
    ensures
        ({
            let r = Event::KeyRelease(e).spec_encoded(32, order);
            &&& r.len() == 32
            &&& r[0] == 3
            &&& r[1] == e.detail
            &&& u16_at(order, r, 2) == e.sequence
            &&& u32_at(order, r, 4) == e.time.0
            &&& u32_at(order, r, 8) == e.root.0.0
            &&& u32_at(order, r, 12) == e.event.0.0
            &&& u32_at(order, r, 16) == e.child.0.0
            &&& i16_at(order, r, 20) == e.root_x
            &&& i16_at(order, r, 22) == e.root_y
            &&& i16_at(order, r, 24) == e.event_x
            &&& i16_at(order, r, 26) == e.event_y
            &&& u16_at(order, r, 28) == e.state
            &&& r[30] == (if e.same_screen { 1u8 } else { 0u8 })
        }),
{
    broadcast use group_wire_lengths;

    let ev = Event::KeyRelease(e);
    let r = ev.spec_encoded(32, order);
    let body = e.spec_body(order);
    assert(body.len() == 30);
    lemma_written_parts(zeros(32), 3, 1, body);
    assert(r[1] == r.subrange(1, 31)[0]);
    assert(r.subrange(2, 4) =~= body.subrange(1, 3));
    assert(body.subrange(1, 3) =~= u16_bytes(order, e.sequence));
    lemma_u16_read(order, r, 2, e.sequence);
    assert(r.subrange(4, 8) =~= body.subrange(3, 7));
    assert(body.subrange(3, 7) =~= u32_bytes(order, e.time.0));
    lemma_u32_read(order, r, 4, e.time.0);
    assert(r.subrange(8, 12) =~= body.subrange(7, 11));
    assert(body.subrange(7, 11) =~= u32_bytes(order, e.root.0.0));
    lemma_u32_read(order, r, 8, e.root.0.0);
    assert(r.subrange(12, 16) =~= body.subrange(11, 15));
    assert(body.subrange(11, 15) =~= u32_bytes(order, e.event.0.0));
    lemma_u32_read(order, r, 12, e.event.0.0);
    assert(r.subrange(16, 20) =~= body.subrange(15, 19));
    assert(body.subrange(15, 19) =~= u32_bytes(order, e.child.0.0));
    lemma_u32_read(order, r, 16, e.child.0.0);
    assert(r.subrange(20, 22) =~= body.subrange(19, 21));
    assert(body.subrange(19, 21) =~= i16_bytes(order, e.root_x));
    lemma_i16_read(order, r, 20, e.root_x);
    assert(r.subrange(22, 24) =~= body.subrange(21, 23));
    assert(body.subrange(21, 23) =~= i16_bytes(order, e.root_y));
    lemma_i16_read(order, r, 22, e.root_y);
    assert(r.subrange(24, 26) =~= body.subrange(23, 25));
    assert(body.subrange(23, 25) =~= i16_bytes(order, e.event_x));
    lemma_i16_read(order, r, 24, e.event_x);
    assert(r.subrange(26, 28) =~= body.subrange(25, 27));
    assert(body.subrange(25, 27) =~= i16_bytes(order, e.event_y));
    lemma_i16_read(order, r, 26, e.event_y);
    assert(r.subrange(28, 30) =~= body.subrange(27, 29));
    assert(body.subrange(27, 29) =~= u16_bytes(order, e.state));
    lemma_u16_read(order, r, 28, e.state);
    assert(r[30] == r.subrange(1, 31)[29]);
}

/// An encoded ButtonPress event (code 4) carries the detail at 1, the sequence number at 2, the time at 4, the root, event
/// and child windows at 8, 12 and 16, the position in the root at 20 and 22, the
/// position in the event window at 24 and 26, and the key and button state at 28,
/// and whether it is on the same screen at 30.
pub proof fn lemma_button_press_layout(e: ButtonPressEvent, order: ByteOrder)
    ensures
        ({
            let r = Event::ButtonPress(e).spec_encoded(32, order);
            &&& r.len() == 32
            &&& r[0] == 4
            &&& r[1] == e.detail
            &&& u16_at(order, r, 2) == e.sequence
            &&& u32_at(order, r, 4) == e.time.0
            &&& u32_at(order, r, 8) == e.root.0.0
            &&& u32_at(order, r, 12) == e.event.0.0
            &&& u32_at(order, r, 16) == e.child.0.0
            &&& i16_at(order, r, 20) == e.root_x
            &&& i16_at(order, r, 22) == e.root_y
            &&& i16_at(order, r, 24) == e.event_x
            &&& i16_at(order, r, 26) == e.event_y
            &&& u16_at(order, r, 28) == e.state
            &&& r[30] == (if e.same_screen { 1u8 } else { 0u8 })
        }),
{
    broadcast use group_wire_lengths;

    let ev = Event::ButtonPress(e);
    let r = ev.spec_encoded(32, order);
    let body = e.spec_body(order);
    assert(body.len() == 30);
    lemma_written_parts(zeros(32), 4, 1, body);
    assert(r[1] == r.subrange(1, 31)[0]);
    assert(r.subrange(2, 4) =~= body.subrange(1, 3));
    assert(body.subrange(1, 3) =~= u16_bytes(order, e.sequence));
    lemma_u16_read(order, r, 2, e.sequence);
    assert(r.subrange(4, 8) =~= body.subrange(3, 7));
    assert(body.subrange(3, 7) =~= u32_bytes(order, e.time.0));
    lemma_u32_read(order, r, 4, e.time.0);
    assert(r.subrange(8, 12) =~= body.subrange(7, 11));
    assert(body.subrange(7, 11) =~= u32_bytes(order, e.root.0.0));
    lemma_u32_read(order, r, 8, e.root.0.0);
    assert(r.subrange(12, 16) =~= body.subrange(11, 15));
    assert(body.subrange(11, 15) =~= u32_bytes(order, e.event.0.0));
    lemma_u32_read(order, r, 12, e.event.0.0);
    assert(r.subrange(16, 20) =~= body.subrange(15, 19));
    assert(body.subrange(15, 19) =~= u32_bytes(order, e.child.0.0));
    lemma_u32_read(order, r, 16, e.child.0.0);
    assert(r.subrange(20, 22) =~= body.subrange(19, 21));
    assert(body.subrange(19, 21) =~= i16_bytes(order, e.root_x));
    lemma_i16_read(order, r, 20, e.root_x);
    assert(r.subrange(22, 24) =~= body.subrange(21, 23));
    assert(body.subrange(21, 23) =~= i16_bytes(order, e.root_y));
    lemma_i16_read(order, r, 22, e.root_y);
    assert(r.subrange(24, 26) =~= body.subrange(23, 25));
    assert(body.subrange(23, 25) =~= i16_bytes(order, e.event_x));
    lemma_i16_read(order, r, 24, e.event_x);
    assert(r.subrange(26, 28) =~= body.subrange(25, 27));
    assert(body.subrange(25, 27) =~= i16_bytes(order, e.event_y));
    lemma_i16_read(order, r, 26, e.event_y);
    assert(r.subrange(28, 30) =~= body.subrange(27, 29));
    assert(body.subrange(27, 29) =~= u16_bytes(order, e.state));
    lemma_u16_read(order, r, 28, e.state);
    assert(r[30] == r.subrange(1, 31)[29]);
}

/// An encoded ButtonRelease event (code 5) carries the detail at 1, the sequence number at 2, the time at 4, the root, event
/// and child windows at 8, 12 and 16, the position in the root at 20 and 22, the
/// position in the event window at 24 and 26, and the key and button state at 28,
/// and whether it is on the same screen at 30.
pub proof fn lemma_button_release_layout(e: ButtonReleaseEvent, order: ByteOrder)
    ensures
        ({
            let r = Event::ButtonRelease(e).spec_encoded(32, order);
            &&& r.len() == 32
            &&& r[0] == 5
            &&& r[1] == e.detail
            &&& u16_at(order, r, 2) == e.sequence
            &&& u32_at(order, r, 4) == e.time.0
            &&& u32_at(order, r, 8) == e.root.0.0
            &&& u32_at(order, r, 12) == e.event.0.0
            &&& u32_at(order, r, 16) == e.child.0.0
            &&& i16_at(order, r, 20) == e.root_x
            &&& i16_at(order, r, 22) == e.root_y
            &&& i16_at(order, r, 24) == e.event_x
            &&& i16_at(order, r, 26) == e.event_y
            &&& u16_at(order, r, 28) == e.state
            &&& r[30] == (if e.same_screen { 1u8 } else { 0u8 })
        }),
{
    broadcast use group_wire_lengths;

    let ev = Event::ButtonRelease(e);
    let r = ev.spec_encoded(32, order);
    let body = e.spec_body(order);
    assert(body.len() == 30);
    lemma_written_parts(zeros(32), 5, 1, body);
    assert(r[1] == r.subrange(1, 31)[0]);
    assert(r.subrange(2, 4) =~= body.subrange(1, 3));
    assert(body.subrange(1, 3) =~= u16_bytes(order, e.sequence));
    lemma_u16_read(order, r, 2, e.sequence);
    assert(r.subrange(4, 8) =~= body.subrange(3, 7));
    assert(body.subrange(3, 7) =~= u32_bytes(order, e.time.0));
    lemma_u32_read(order, r, 4, e.time.0);
    assert(r.subrange(8, 12) =~= body.subrange(7, 11));
    assert(body.subrange(7, 11) =~= u32_bytes(order, e.root.0.0));
    lemma_u32_read(order, r, 8, e.root.0.0);
    assert(r.subrange(12, 16) =~= body.subrange(11, 15));
    assert(body.subrange(11, 15) =~= u32_bytes(order, e.event.0.0));
    lemma_u32_read(order, r, 12, e.event.0.0);
    assert(r.subrange(16, 20) =~= body.subrange(15, 19));
    assert(body.subrange(15, 19) =~= u32_bytes(order, e.child.0.0));
    lemma_u32_read(order, r, 16, e.child.0.0);
    assert(r.subrange(20, 22) =~= body.subrange(19, 21));
    assert(body.subrange(19, 21) =~= i16_bytes(order, e.root_x));
    lemma_i16_read(order, r, 20, e.root_x);
    assert(r.subrange(22, 24) =~= body.subrange(21, 23));
    assert(body.subrange(21, 23) =~= i16_bytes(order, e.root_y));
    lemma_i16_read(order, r, 22, e.root_y);
    assert(r.subrange(24, 26) =~= body.subrange(23, 25));
    assert(body.subrange(23, 25) =~= i16_bytes(order, e.event_x));
    lemma_i16_read(order, r, 24, e.event_x);
    assert(r.subrange(26, 28) =~= body.subrange(25, 27));
    assert(body.subrange(25, 27) =~= i16_bytes(order, e.event_y));
    lemma_i16_read(order, r, 26, e.event_y);
    assert(r.subrange(28, 30) =~= body.subrange(27, 29));
    assert(body.subrange(27, 29) =~= u16_bytes(order, e.state));
    lemma_u16_read(order, r, 28, e.state);
    assert(r[30] == r.subrange(1, 31)[29]);
}

/// An encoded MotionNotify event (code 6) carries the detail at 1, the sequence number at 2, the time at 4, the root, event
/// and child windows at 8, 12 and 16, the position in the root at 20 and 22, the
/// position in the event window at 24 and 26, and the key and button state at 28,
/// and whether it is on the same screen at 30.
pub proof fn lemma_motion_notify_layout(e: MotionNotifyEvent, order: ByteOrder)
    ensures
        ({
            let r = Event::MotionNotify(e).spec_encoded(32, order);
            &&& r.len() == 32
            &&& r[0] == 6
            &&& r[1] == e.detail
            &&& u16_at(order, r, 2) == e.sequence
            &&& u32_at(order, r, 4) == e.time.0
            &&& u32_at(order, r, 8) == e.root.0.0
            &&& u32_at(order, r, 12) == e.event.0.0
            &&& u32_at(order, r, 16) == e.child.0.0
            &&& i16_at(order, r, 20) == e.root_x
            &&& i16_at(order, r, 22) == e.root_y
            &&& i16_at(order, r, 24) == e.event_x
            &&& i16_at(order, r, 26) == e.event_y
            &&& u16_at(order, r, 28) == e.state
            &&& r[30] == (if e.same_screen { 1u8 } else { 0u8 })
        }),
{
    broadcast use group_wire_lengths;

    let ev = Event::MotionNotify(e);
    let r = ev.spec_encoded(32, order);
    let body = e.spec_body(order);
    assert(body.len() == 30);
    lemma_written_parts(zeros(32), 6, 1, body);
    assert(r[1] == r.subrange(1, 31)[0]);
    assert(r.subrange(2, 4) =~= body.subrange(1, 3));
    assert(body.subrange(1, 3) =~= u16_bytes(order, e.sequence));
    lemma_u16_read(order, r, 2, e.sequence);
    assert(r.subrange(4, 8) =~= body.subrange(3, 7));
    assert(body.subrange(3, 7) =~= u32_bytes(order, e.time.0));
    lemma_u32_read(order, r, 4, e.time.0);
    assert(r.subrange(8, 12) =~= body.subrange(7, 11));
    assert(body.subrange(7, 11) =~= u32_bytes(order, e.root.0.0));
    lemma_u32_read(order, r, 8, e.root.0.0);
    assert(r.subrange(12, 16) =~= body.subrange(11, 15));
    assert(body.subrange(11, 15) =~= u32_bytes(order, e.event.0.0));
    lemma_u32_read(order, r, 12, e.event.0.0);
    assert(r.subrange(16, 20) =~= body.subrange(15, 19));
    assert(body.subrange(15, 19) =~= u32_bytes(order, e.child.0.0));
    lemma_u32_read(order, r, 16, e.child.0.0);
    assert(r.subrange(20, 22) =~= body.subrange(19, 21));
    assert(body.subrange(19, 21) =~= i16_bytes(order, e.root_x));
    lemma_i16_read(order, r, 20, e.root_x);
    assert(r.subrange(22, 24) =~= body.subrange(21, 23));
    assert(body.subrange(21, 23) =~= i16_bytes(order, e.root_y));
    lemma_i16_read(order, r, 22, e.root_y);
    assert(r.subrange(24, 26) =~= body.subrange(23, 25));
    assert(body.subrange(23, 25) =~= i16_bytes(order, e.event_x));
    lemma_i16_read(order, r, 24, e.event_x);
    assert(r.subrange(26, 28) =~= body.subrange(25, 27));
    assert(body.subrange(25, 27) =~= i16_bytes(order, e.event_y));
    lemma_i16_read(order, r, 26, e.event_y);
    assert(r.subrange(28, 30) =~= body.subrange(27, 29));
    assert(body.subrange(27, 29) =~= u16_bytes(order, e.state));
    lemma_u16_read(order, r, 28, e.state);
    assert(r[30] == r.subrange(1, 31)[29]);
}

/// An encoded EnterNotify event (code 7) carries the detail at 1, the sequence number at 2, the time at 4, the root, event
/// and child windows at 8, 12 and 16, the position in the root at 20 and 22, the
/// position in the event window at 24 and 26, and the key and button state at 28,
/// the mode at 30 and the same-screen and focus flags at 31.
pub proof fn lemma_enter_notify_layout(e: EnterNotifyEvent, order: ByteOrder)
    ensures
        ({
            let r = Event::EnterNotify(e).spec_encoded(32, order);
            &&& r.len() == 32
            &&& r[0] == 7
            &&& r[1] == e.detail
            &&& u16_at(order, r, 2) == e.sequence
            &&& u32_at(order, r, 4) == e.time.0
            &&& u32_at(order, r, 8) == e.root.0.0
            &&& u32_at(order, r, 12) == e.event.0.0
            &&& u32_at(order, r, 16) == e.child.0.0
            &&& i16_at(order, r, 20) == e.root_x
            &&& i16_at(order, r, 22) == e.root_y
            &&& i16_at(order, r, 24) == e.event_x
            &&& i16_at(order, r, 26) == e.event_y
            &&& u16_at(order, r, 28) == e.state
            &&& r[30] == e.mode
            &&& r[31] == e.same_screen_focus
        }),
{
    broadcast use group_wire_lengths;

    let ev = Event::EnterNotify(e);
    let r = ev.spec_encoded(32, order);
    let body = e.spec_body(order);
    assert(body.len() == 31);
    lemma_written_parts(zeros(32), 7, 1, body);
    assert(r[1] == r.subrange(1, 32)[0]);
    assert(r.subrange(2, 4) =~= body.subrange(1, 3));
    assert(body.subrange(1, 3) =~= u16_bytes(order, e.sequence));
    lemma_u16_read(order, r, 2, e.sequence);
    assert(r.subrange(4, 8) =~= body.subrange(3, 7));
    assert(body.subrange(3, 7) =~= u32_bytes(order, e.time.0));
    lemma_u32_read(order, r, 4, e.time.0);
    assert(r.subrange(8, 12) =~= body.subrange(7, 11));
    assert(body.subrange(7, 11) =~= u32_bytes(order, e.root.0.0));
    lemma_u32_read(order, r, 8, e.root.0.0);
    assert(r.subrange(12, 16) =~= body.subrange(11, 15));
    assert(body.subrange(11, 15) =~= u32_bytes(order, e.event.0.0));
    lemma_u32_read(order, r, 12, e.event.0.0);
    assert(r.subrange(16, 20) =~= body.subrange(15, 19));
    assert(body.subrange(15, 19) =~= u32_bytes(order, e.child.0.0));
    lemma_u32_read(order, r, 16, e.child.0.0);
    assert(r.subrange(20, 22) =~= body.subrange(19, 21));
    assert(body.subrange(19, 21) =~= i16_bytes(order, e.root_x));
    lemma_i16_read(order, r, 20, e.root_x);
    assert(r.subrange(22, 24) =~= body.subrange(21, 23));
    assert(body.subrange(21, 23) =~= i16_bytes(order, e.root_y));
    lemma_i16_read(order, r, 22, e.root_y);
    assert(r.subrange(24, 26) =~= body.subrange(23, 25));
    assert(body.subrange(23, 25) =~= i16_bytes(order, e.event_x));
    lemma_i16_read(order, r, 24, e.event_x);
    assert(r.subrange(26, 28) =~= body.subrange(25, 27));
    assert(body.subrange(25, 27) =~= i16_bytes(order, e.event_y));
    lemma_i16_read(order, r, 26, e.event_y);
    assert(r.subrange(28, 30) =~= body.subrange(27, 29));
    assert(body.subrange(27, 29) =~= u16_bytes(order, e.state));
    lemma_u16_read(order, r, 28, e.state);
    assert(r[30] == r.subrange(1, 32)[29]);
    assert(r[31] == r.subrange(1, 32)[30]);
}

/// An encoded LeaveNotify event (code 8) carries the detail at 1, the sequence number at 2, the time at 4, the root, event
/// and child windows at 8, 12 and 16, the position in the root at 20 and 22, the
/// position in the event window at 24 and 26, and the key and button state at 28,
/// the mode at 30 and the same-screen and focus flags at 31.
pub proof fn lemma_leave_notify_layout(e: LeaveNotifyEvent, order: ByteOrder)
    ensures
        ({
            let r = Event::LeaveNotify(e).spec_encoded(32, order);
            &&& r.len() == 32
            &&& r[0] == 8
            &&& r[1] == e.detail
            &&& u16_at(order, r, 2) == e.sequence
            &&& u32_at(order, r, 4) == e.time.0
            &&& u32_at(order, r, 8) == e.root.0.0
            &&& u32_at(order, r, 12) == e.event.0.0
            &&& u32_at(order, r, 16) == e.child.0.0
            &&& i16_at(order, r, 20) == e.root_x
            &&& i16_at(order, r, 22) == e.root_y
            &&& i16_at(order, r, 24) == e.event_x
            &&& i16_at(order, r, 26) == e.event_y
            &&& u16_at(order, r, 28) == e.state
            &&& r[30] == e.mode
            &&& r[31] == e.same_screen_focus
        }),
{
    broadcast use group_wire_lengths;

    let ev = Event::LeaveNotify(e);
    let r = ev.spec_encoded(32, order);
    let body = e.spec_body(order);
    assert(body.len() == 31);
    lemma_written_parts(zeros(32), 8, 1, body);
    assert(r[1] == r.subrange(1, 32)[0]);
    assert(r.subrange(2, 4) =~= body.subrange(1, 3));
    assert(body.subrange(1, 3) =~= u16_bytes(order, e.sequence));
    lemma_u16_read(order, r, 2, e.sequence);
    assert(r.subrange(4, 8) =~= body.subrange(3, 7));
    assert(body.subrange(3, 7) =~= u32_bytes(order, e.time.0));
    lemma_u32_read(order, r, 4, e.time.0);
    assert(r.subrange(8, 12) =~= body.subrange(7, 11));
    assert(body.subrange(7, 11) =~= u32_bytes(order, e.root.0.0));
    lemma_u32_read(order, r, 8, e.root.0.0);
    assert(r.subrange(12, 16) =~= body.subrange(11, 15));
    assert(body.subrange(11, 15) =~= u32_bytes(order, e.event.0.0));
    lemma_u32_read(order, r, 12, e.event.0.0);
    assert(r.subrange(16, 20) =~= body.subrange(15, 19));
    assert(body.subrange(15, 19) =~= u32_bytes(order, e.child.0.0));
    lemma_u32_read(order, r, 16, e.child.0.0);
    assert(r.subrange(20, 22) =~= body.subrange(19, 21));
    assert(body.subrange(19, 21) =~= i16_bytes(order, e.root_x));
    lemma_i16_read(order, r, 20, e.root_x);
    assert(r.subrange(22, 24) =~= body.subrange(21, 23));
    assert(body.subrange(21, 23) =~= i16_bytes(order, e.root_y));
    lemma_i16_read(order, r, 22, e.root_y);
    assert(r.subrange(24, 26) =~= body.subrange(23, 25));
    assert(body.subrange(23, 25) =~= i16_bytes(order, e.event_x));
    lemma_i16_read(order, r, 24, e.event_x);
    assert(r.subrange(26, 28) =~= body.subrange(25, 27));
    assert(body.subrange(25, 27) =~= i16_bytes(order, e.event_y));
    lemma_i16_read(order, r, 26, e.event_y);
    assert(r.subrange(28, 30) =~= body.subrange(27, 29));
    assert(body.subrange(27, 29) =~= u16_bytes(order, e.state));
    lemma_u16_read(order, r, 28, e.state);
    assert(r[30] == r.subrange(1, 32)[29]);
    assert(r[31] == r.subrange(1, 32)[30]);
}

/// An encoded FocusIn event (code 9) carries the detail at 1, the sequence number at
/// 2, the window at 4 and the mode at 8.
pub proof fn lemma_focus_in_layout(e: FocusInEvent, order: ByteOrder)
    ensures
        ({
            let r = Event::FocusIn(e).spec_encoded(32, order);
            &&& r.len() == 32
            &&& r[0] == 9
            &&& r[1] == e.detail
            &&& u16_at(order, r, 2) == e.sequence
            &&& u32_at(order, r, 4) == e.event.0.0
            &&& r[8] == e.mode
        }),
{
    broadcast use group_wire_lengths;

    let ev = Event::FocusIn(e);
    let r = ev.spec_encoded(32, order);
    let body = e.spec_body(order);
    assert(body.len() == 8);
    lemma_written_parts(zeros(32), 9, 1, body);
    assert(r[1] == r.subrange(1, 9)[0]);
    assert(r.subrange(2, 4) =~= body.subrange(1, 3));
    assert(body.subrange(1, 3) =~= u16_bytes(order, e.sequence));
    lemma_u16_read(order, r, 2, e.sequence);
    assert(r.subrange(4, 8) =~= body.subrange(3, 7));
    assert(body.subrange(3, 7) =~= u32_bytes(order, e.event.0.0));
    lemma_u32_read(order, r, 4, e.event.0.0);
    assert(r[8] == r.subrange(1, 9)[7]);
}

/// An encoded FocusOut event (code 10) carries the detail at 1, the sequence number at
/// 2, the window at 4 and the mode at 8.
pub proof fn lemma_focus_out_layout(e: FocusOutEvent, order: ByteOrder)
    ensures
        ({
            let r = Event::FocusOut(e).spec_encoded(32, order);
            &&& r.len() == 32
            &&& r[0] == 10
            &&& r[1] == e.detail
            &&& u16_at(order, r, 2) == e.sequence
            &&& u32_at(order, r, 4) == e.event.0.0
            &&& r[8] == e.mode
        }),
{
    broadcast use group_wire_lengths;

    let ev = Event::FocusOut(e);
    let r = ev.spec_encoded(32, order);
    let body = e.spec_body(order);
    assert(body.len() == 8);
    lemma_written_parts(zeros(32), 10, 1, body);
    assert(r[1] == r.subrange(1, 9)[0]);
    assert(r.subrange(2, 4) =~= body.subrange(1, 3));
    assert(body.subrange(1, 3) =~= u16_bytes(order, e.sequence));
    lemma_u16_read(order, r, 2, e.sequence);
    assert(r.subrange(4, 8) =~= body.subrange(3, 7));
    assert(body.subrange(3, 7) =~= u32_bytes(order, e.event.0.0));
    lemma_u32_read(order, r, 4, e.event.0.0);
    assert(r[8] == r.subrange(1, 9)[7]);
}

/// An encoded Expose event (code 12) carries the sequence number at 2, the window at
/// 4, the area's x, y, width and height at 8, 10, 12 and 14, and the count at 16.
pub proof fn lemma_expose_layout(e: ExposeEvent, order: ByteOrder)
    ensures
        ({
            let r = Event::Expose(e).spec_encoded(32, order);
            &&& r.len() == 32
            &&& r[0] == 12
            &&& u16_at(order, r, 2) == e.sequence
            &&& u32_at(order, r, 4) == e.window.0.0
            &&& u16_at(order, r, 8) == e.x
            &&& u16_at(order, r, 10) == e.y
            &&& u16_at(order, r, 12) == e.width
            &&& u16_at(order, r, 14) == e.height
            &&& u16_at(order, r, 16) == e.count
        }),
{
    broadcast use group_wire_lengths;

    let ev = Event::Expose(e);
    let r = ev.spec_encoded(32, order);
    let body = e.spec_body(order);
    assert(body.len() == 16);
    lemma_written_parts(zeros(32), 12, 2, body);
    assert(r.subrange(2, 4) =~= body.subrange(0, 2));
    assert(body.subrange(0, 2) =~= u16_bytes(order, e.sequence));
    lemma_u16_read(order, r, 2, e.sequence);
    assert(r.subrange(4, 8) =~= body.subrange(2, 6));
    assert(body.subrange(2, 6) =~= u32_bytes(order, e.window.0.0));
    lemma_u32_read(order, r, 4, e.window.0.0);
    assert(r.subrange(8, 10) =~= body.subrange(6, 8));
    assert(body.subrange(6, 8) =~= u16_bytes(order, e.x));
    lemma_u16_read(order, r, 8, e.x);
    assert(r.subrange(10, 12) =~= body.subrange(8, 10));
    assert(body.subrange(8, 10) =~= u16_bytes(order, e.y));
    lemma_u16_read(order, r, 10, e.y);
    assert(r.subrange(12, 14) =~= body.subrange(10, 12));
    assert(body.subrange(10, 12) =~= u16_bytes(order, e.width));
    lemma_u16_read(order, r, 12, e.width);
    assert(r.subrange(14, 16) =~= body.subrange(12, 14));
    assert(body.subrange(12, 14) =~= u16_bytes(order, e.height));
    lemma_u16_read(order, r, 14, e.height);
    assert(r.subrange(16, 18) =~= body.subrange(14, 16));
    assert(body.subrange(14, 16) =~= u16_bytes(order, e.count));
    lemma_u16_read(order, r, 16, e.count);
}

/// An encoded GraphicsExposure event (code 13) carries the sequence number at 2, the
/// drawable at 4, the area at 8 to 14, the minor opcode at 16, the count at 18 and the
/// major opcode at 20.
pub proof fn lemma_graphics_exposure_layout(e: GraphicsExposureEvent, order: ByteOrder)
    ensures
        ({
            let r = Event::GraphicsExposure(e).spec_encoded(32, order);
            &&& r.len() == 32
            &&& r[0] == 13
            &&& u16_at(order, r, 2) == e.sequence
            &&& u32_at(order, r, 4) == e.drawable.spec_id().0
            &&& u16_at(order, r, 8) == e.x
            &&& u16_at(order, r, 10) == e.y
            &&& u16_at(order, r, 12) == e.width
            &&& u16_at(order, r, 14) == e.height
            &&& u16_at(order, r, 16) == e.minor_opcode
            &&& u16_at(order, r, 18) == e.count
            &&& r[20] == e.major_opcode
        }),
{
    broadcast use group_wire_lengths;

    let ev = Event::GraphicsExposure(e);
    let r = ev.spec_encoded(32, order);
    let body = e.spec_body(order);
    assert(body.len() == 19);
    lemma_written_parts(zeros(32), 13, 2, body);
    assert(r.subrange(2, 4) =~= body.subrange(0, 2));
    assert(body.subrange(0, 2) =~= u16_bytes(order, e.sequence));
    lemma_u16_read(order, r, 2, e.sequence);
    assert(r.subrange(4, 8) =~= body.subrange(2, 6));
    assert(body.subrange(2, 6) =~= u32_bytes(order, e.drawable.spec_id().0));
    lemma_u32_read(order, r, 4, e.drawable.spec_id().0);
    assert(r.subrange(8, 10) =~= body.subrange(6, 8));
    assert(body.subrange(6, 8) =~= u16_bytes(order, e.x));
    lemma_u16_read(order, r, 8, e.x);
    assert(r.subrange(10, 12) =~= body.subrange(8, 10));
    assert(body.subrange(8, 10) =~= u16_bytes(order, e.y));
    lemma_u16_read(order, r, 10, e.y);
    assert(r.subrange(12, 14) =~= body.subrange(10, 12));
    assert(body.subrange(10, 12) =~= u16_bytes(order, e.width));
    lemma_u16_read(order, r, 12, e.width);
    assert(r.subrange(14, 16) =~= body.subrange(12, 14));
    assert(body.subrange(12, 14) =~= u16_bytes(order, e.height));
    lemma_u16_read(order, r, 14, e.height);
    assert(r.subrange(16, 18) =~= body.subrange(14, 16));
    assert(body.subrange(14, 16) =~= u16_bytes(order, e.minor_opcode));
    lemma_u16_read(order, r, 16, e.minor_opcode);
    assert(r.subrange(18, 20) =~= body.subrange(16, 18));
    assert(body.subrange(16, 18) =~= u16_bytes(order, e.count));
    lemma_u16_read(order, r, 18, e.count);
    assert(r[20] == r.subrange(2, 21)[18]);
}

/// An encoded NoExposure event (code 14) carries the sequence number at 2, the
/// drawable at 4, the minor opcode at 8 and the major opcode at 10.
pub proof fn lemma_no_exposure_layout(e: NoExposureEvent, order: ByteOrder)
    ensures
        ({
            let r = Event::NoExposure(e).spec_encoded(32, order);
            &&& r.len() == 32
            &&& r[0] == 14
            &&& u16_at(order, r, 2) == e.sequence
            &&& u32_at(order, r, 4) == e.drawable.spec_id().0
            &&& u16_at(order, r, 8) == e.minor_opcode
            &&& r[10] == e.major_opcode
        }),
{
    broadcast use group_wire_lengths;

    let ev = Event::NoExposure(e);
    let r = ev.spec_encoded(32, order);
    let body = e.spec_body(order);
    assert(body.len() == 9);
    lemma_written_parts(zeros(32), 14, 2, body);
    assert(r.subrange(2, 4) =~= body.subrange(0, 2));
    assert(body.subrange(0, 2) =~= u16_bytes(order, e.sequence));
    lemma_u16_read(order, r, 2, e.sequence);
    assert(r.subrange(4, 8) =~= body.subrange(2, 6));
    assert(body.subrange(2, 6) =~= u32_bytes(order, e.drawable.spec_id().0));
    lemma_u32_read(order, r, 4, e.drawable.spec_id().0);
    assert(r.subrange(8, 10) =~= body.subrange(6, 8));
    assert(body.subrange(6, 8) =~= u16_bytes(order, e.minor_opcode));
    lemma_u16_read(order, r, 8, e.minor_opcode);
    assert(r[10] == r.subrange(2, 11)[8]);
}

/// An encoded CreateNotify event (code 16) carries the sequence number at 2, the
/// parent at 4, the window at 8, x and y at 12 and 14, width, height and border width
/// at 16, 18 and 20, and the override-redirect flag at 22.
pub proof fn lemma_create_notify_layout(e: CreateNotifyEvent, order: ByteOrder)
    ensures
        ({
            let r = Event::CreateNotify(e).spec_encoded(32, order);
            &&& r.len() == 32
            &&& r[0] == 16
            &&& u16_at(order, r, 2) == e.sequence
            &&& u32_at(order, r, 4) == e.parent.0.0
            &&& u32_at(order, r, 8) == e.window.0.0
            &&& i16_at(order, r, 12) == e.x
            &&& i16_at(order, r, 14) == e.y
            &&& u16_at(order, r, 16) == e.width
            &&& u16_at(order, r, 18) == e.height
            &&& u16_at(order, r, 20) == e.border_width
            &&& r[22] == (if e.override_redirect { 1u8 } else { 0u8 })
        }),
{
    broadcast use group_wire_lengths;

    let ev = Event::CreateNotify(e);
    let r = ev.spec_encoded(32, order);
    let body = e.spec_body(order);
    assert(body.len() == 21);
    lemma_written_parts(zeros(32), 16, 2, body);
    assert(r.subrange(2, 4) =~= body.subrange(0, 2));
    assert(body.subrange(0, 2) =~= u16_bytes(order, e.sequence));
    lemma_u16_read(order, r, 2, e.sequence);
    assert(r.subrange(4, 8) =~= body.subrange(2, 6));
    assert(body.subrange(2, 6) =~= u32_bytes(order, e.parent.0.0));
    lemma_u32_read(order, r, 4, e.parent.0.0);
    assert(r.subrange(8, 12) =~= body.subrange(6, 10));
    assert(body.subrange(6, 10) =~= u32_bytes(order, e.window.0.0));
    lemma_u32_read(order, r, 8, e.window.0.0);
    assert(r.subrange(12, 14) =~= body.subrange(10, 12));
    assert(body.subrange(10, 12) =~= i16_bytes(order, e.x));
    lemma_i16_read(order, r, 12, e.x);
    assert(r.subrange(14, 16) =~= body.subrange(12, 14));
    assert(body.subrange(12, 14) =~= i16_bytes(order, e.y));
    lemma_i16_read(order, r, 14, e.y);
    assert(r.subrange(16, 18) =~= body.subrange(14, 16));
    assert(body.subrange(14, 16) =~= u16_bytes(order, e.width));
    lemma_u16_read(order, r, 16, e.width);
    assert(r.subrange(18, 20) =~= body.subrange(16, 18));
    assert(body.subrange(16, 18) =~= u16_bytes(order, e.height));
    lemma_u16_read(order, r, 18, e.height);
    assert(r.subrange(20, 22) =~= body.subrange(18, 20));
    assert(body.subrange(18, 20) =~= u16_bytes(order, e.border_width));
    lemma_u16_read(order, r, 20, e.border_width);
    assert(r[22] == r.subrange(2, 23)[20]);
}

/// An encoded DestroyNotify event (code 17) carries the sequence number at 2, the
/// event window at 4 and the destroyed window at 8.
pub proof fn lemma_destroy_notify_layout(e: DestroyNotifyEvent, order: ByteOrder)
    ensures
        ({
            let r = Event::DestroyNotify(e).spec_encoded(32, order);
            &&& r.len() == 32
            &&& r[0] == 17
            &&& u16_at(order, r, 2) == e.sequence
            &&& u32_at(order, r, 4) == e.event.0.0
            &&& u32_at(order, r, 8) == e.window.0.0
        }),
{
    broadcast use group_wire_lengths;

    let ev = Event::DestroyNotify(e);
    let r = ev.spec_encoded(32, order);
    let body = e.spec_body(order);
    assert(body.len() == 10);
    lemma_written_parts(zeros(32), 17, 2, body);
    assert(r.subrange(2, 4) =~= body.subrange(0, 2));
    assert(body.subrange(0, 2) =~= u16_bytes(order, e.sequence));
    lemma_u16_read(order, r, 2, e.sequence);
    assert(r.subrange(4, 8) =~= body.subrange(2, 6));
    assert(body.subrange(2, 6) =~= u32_bytes(order, e.event.0.0));
    lemma_u32_read(order, r, 4, e.event.0.0);
    assert(r.subrange(8, 12) =~= body.subrange(6, 10));
    assert(body.subrange(6, 10) =~= u32_bytes(order, e.window.0.0));
    lemma_u32_read(order, r, 8, e.window.0.0);
}

/// An encoded UnmapNotify event (code 18) carries the sequence number at 2, the event
/// window at 4, the unmapped window at 8 and the from-configure flag at 12.
pub proof fn lemma_unmap_notify_layout(e: UnmapNotifyEvent, order: ByteOrder)
    ensures
        ({
            let r = Event::UnmapNotify(e).spec_encoded(32, order);
            &&& r.len() == 32
            &&& r[0] == 18
            &&& u16_at(order, r, 2) == e.sequence
            &&& u32_at(order, r, 4) == e.event.0.0
            &&& u32_at(order, r, 8) == e.window.0.0
            &&& r[12] == (if e.from_configure { 1u8 } else { 0u8 })
        }),
{
    broadcast use group_wire_lengths;

    let ev = Event::UnmapNotify(e);
    let r = ev.spec_encoded(32, order);
    let body = e.spec_body(order);
    assert(body.len() == 11);
    lemma_written_parts(zeros(32), 18, 2, body);
    assert(r.subrange(2, 4) =~= body.subrange(0, 2));
    assert(body.subrange(0, 2) =~= u16_bytes(order, e.sequence));
    lemma_u16_read(order, r, 2, e.sequence);
    assert(r.subrange(4, 8) =~= body.subrange(2, 6));
    assert(body.subrange(2, 6) =~= u32_bytes(order, e.event.0.0));
    lemma_u32_read(order, r, 4, e.event.0.0);
    assert(r.subrange(8, 12) =~= body.subrange(6, 10));
    assert(body.subrange(6, 10) =~= u32_bytes(order, e.window.0.0));
    lemma_u32_read(order, r, 8, e.window.0.0);
    assert(r[12] == r.subrange(2, 13)[10]);
}

/// An encoded MapNotify event (code 19) carries the sequence number at 2, the event
/// window at 4, the mapped window at 8 and the override-redirect flag at 12.
pub proof fn lemma_map_notify_layout(e: MapNotifyEvent, order: ByteOrder)
    ensures
        ({
            let r = Event::MapNotify(e).spec_encoded(32, order);
            &&& r.len() == 32
            &&& r[0] == 19
            &&& u16_at(order, r, 2) == e.sequence
            &&& u32_at(order, r, 4) == e.event.0.0
            &&& u32_at(order, r, 8) == e.window.0.0
            &&& r[12] == (if e.override_redirect { 1u8 } else { 0u8 })
        }),
{
    broadcast use group_wire_lengths;

    let ev = Event::MapNotify(e);
    let r = ev.spec_encoded(32, order);
    let body = e.spec_body(order);
    assert(body.len() == 11);
    lemma_written_parts(zeros(32), 19, 2, body);
    assert(r.subrange(2, 4) =~= body.subrange(0, 2));
    assert(body.subrange(0, 2) =~= u16_bytes(order, e.sequence));
    lemma_u16_read(order, r, 2, e.sequence);
    assert(r.subrange(4, 8) =~= body.subrange(2, 6));
    assert(body.subrange(2, 6) =~= u32_bytes(order, e.event.0.0));
    lemma_u32_read(order, r, 4, e.event.0.0);
    assert(r.subrange(8, 12) =~= body.subrange(6, 10));
    assert(body.subrange(6, 10) =~= u32_bytes(order, e.window.0.0));
    lemma_u32_read(order, r, 8, e.window.0.0);
    assert(r[12] == r.subrange(2, 13)[10]);
}

/// An encoded MapRequest event (code 20) carries the sequence number at 2, the parent
/// at 4 and the window at 8.
pub proof fn lemma_map_request_layout(e: MapRequestEvent, order: ByteOrder)
    ensures
        ({
            let r = Event::MapRequest(e).spec_encoded(32, order);
            &&& r.len() == 32
            &&& r[0] == 20
            &&& u16_at(order, r, 2) == e.sequence
            &&& u32_at(order, r, 4) == e.parent.0.0
            &&& u32_at(order, r, 8) == e.window.0.0
        }),
{
    broadcast use group_wire_lengths;

    let ev = Event::MapRequest(e);
    let r = ev.spec_encoded(32, order);
    let body = e.spec_body(order);
    assert(body.len() == 10);
    lemma_written_parts(zeros(32), 20, 2, body);
    assert(r.subrange(2, 4) =~= body.subrange(0, 2));
    assert(body.subrange(0, 2) =~= u16_bytes(order, e.sequence));
    lemma_u16_read(order, r, 2, e.sequence);
    assert(r.subrange(4, 8) =~= body.subrange(2, 6));
    assert(body.subrange(2, 6) =~= u32_bytes(order, e.parent.0.0));
    lemma_u32_read(order, r, 4, e.parent.0.0);
    assert(r.subrange(8, 12) =~= body.subrange(6, 10));
    assert(body.subrange(6, 10) =~= u32_bytes(order, e.window.0.0));
    lemma_u32_read(order, r, 8, e.window.0.0);
}

/// An encoded ReparentNotify event (code 21) carries the sequence number at 2, the
/// event window at 4, the window at 8, the new parent at 12, x and y at 16 and 18, and
/// the override-redirect flag at 20.
pub proof fn lemma_reparent_notify_layout(e: ReparentNotifyEvent, order: ByteOrder)
    ensures
        ({
            let r = Event::ReparentNotify(e).spec_encoded(32, order);
            &&& r.len() == 32
            &&& r[0] == 21
            &&& u16_at(order, r, 2) == e.sequence
            &&& u32_at(order, r, 4) == e.event.0.0
            &&& u32_at(order, r, 8) == e.window.0.0
            &&& u32_at(order, r, 12) == e.parent.0.0
            &&& i16_at(order, r, 16) == e.x
            &&& i16_at(order, r, 18) == e.y
            &&& r[20] == (if e.override_redirect { 1u8 } else { 0u8 })
        }),
{
    broadcast use group_wire_lengths;

    let ev = Event::ReparentNotify(e);
    let r = ev.spec_encoded(32, order);
    let body = e.spec_body(order);
    assert(body.len() == 19);
    lemma_written_parts(zeros(32), 21, 2, body);
    assert(r.subrange(2, 4) =~= body.subrange(0, 2));
    assert(body.subrange(0, 2) =~= u16_bytes(order, e.sequence));
    lemma_u16_read(order, r, 2, e.sequence);
    assert(r.subrange(4, 8) =~= body.subrange(2, 6));
    assert(body.subrange(2, 6) =~= u32_bytes(order, e.event.0.0));
    lemma_u32_read(order, r, 4, e.event.0.0);
    assert(r.subrange(8, 12) =~= body.subrange(6, 10));
    assert(body.subrange(6, 10) =~= u32_bytes(order, e.window.0.0));
    lemma_u32_read(order, r, 8, e.window.0.0);
    assert(r.subrange(12, 16) =~= body.subrange(10, 14));
    assert(body.subrange(10, 14) =~= u32_bytes(order, e.parent.0.0));
    lemma_u32_read(order, r, 12, e.parent.0.0);
    assert(r.subrange(16, 18) =~= body.subrange(14, 16));
    assert(body.subrange(14, 16) =~= i16_bytes(order, e.x));
    lemma_i16_read(order, r, 16, e.x);
    assert(r.subrange(18, 20) =~= body.subrange(16, 18));
    assert(body.subrange(16, 18) =~= i16_bytes(order, e.y));
    lemma_i16_read(order, r, 18, e.y);
    assert(r[20] == r.subrange(2, 21)[18]);
}

/// An encoded ConfigureNotify event (code 22) carries the sequence number at 2, the
/// event window at 4, the window at 8, the sibling above it at 12, x and y at 16 and
/// 18, width, height and border width at 20, 22 and 24, and the override-redirect flag
/// at 26.
pub proof fn lemma_configure_notify_layout(e: ConfigureNotifyEvent, order: ByteOrder)
    ensures
        ({
            let r = Event::ConfigureNotify(e).spec_encoded(32, order);
            &&& r.len() == 32
            &&& r[0] == 22
            &&& u16_at(order, r, 2) == e.sequence
            &&& u32_at(order, r, 4) == e.event.0.0
            &&& u32_at(order, r, 8) == e.window.0.0
            &&& u32_at(order, r, 12) == e.above_sibling.0.0
            &&& i16_at(order, r, 16) == e.x
            &&& i16_at(order, r, 18) == e.y
            &&& u16_at(order, r, 20) == e.width
            &&& u16_at(order, r, 22) == e.height
            &&& u16_at(order, r, 24) == e.border_width
            &&& r[26] == (if e.override_redirect { 1u8 } else { 0u8 })
        }),
{
    broadcast use group_wire_lengths;

    let ev = Event::ConfigureNotify(e);
    let r = ev.spec_encoded(32, order);
    let body = e.spec_body(order);
    assert(body.len() == 25);
    lemma_written_parts(zeros(32), 22, 2, body);
    assert(r.subrange(2, 4) =~= body.subrange(0, 2));
    assert(body.subrange(0, 2) =~= u16_bytes(order, e.sequence));
    lemma_u16_read(order, r, 2, e.sequence);
    assert(r.subrange(4, 8) =~= body.subrange(2, 6));
    assert(body.subrange(2, 6) =~= u32_bytes(order, e.event.0.0));
    lemma_u32_read(order, r, 4, e.event.0.0);
    assert(r.subrange(8, 12) =~= body.subrange(6, 10));
    assert(body.subrange(6, 10) =~= u32_bytes(order, e.window.0.0));
    lemma_u32_read(order, r, 8, e.window.0.0);
    assert(r.subrange(12, 16) =~= body.subrange(10, 14));
    assert(body.subrange(10, 14) =~= u32_bytes(order, e.above_sibling.0.0));
    lemma_u32_read(order, r, 12, e.above_sibling.0.0);
    assert(r.subrange(16, 18) =~= body.subrange(14, 16));
    assert(body.subrange(14, 16) =~= i16_bytes(order, e.x));
    lemma_i16_read(order, r, 16, e.x);
    assert(r.subrange(18, 20) =~= body.subrange(16, 18));
    assert(body.subrange(16, 18) =~= i16_bytes(order, e.y));
    lemma_i16_read(order, r, 18, e.y);
    assert(r.subrange(20, 22) =~= body.subrange(18, 20));
    assert(body.subrange(18, 20) =~= u16_bytes(order, e.width));
    lemma_u16_read(order, r, 20, e.width);
    assert(r.subrange(22, 24) =~= body.subrange(20, 22));
    assert(body.subrange(20, 22) =~= u16_bytes(order, e.height));
    lemma_u16_read(order, r, 22, e.height);
    assert(r.subrange(24, 26) =~= body.subrange(22, 24));
    assert(body.subrange(22, 24) =~= u16_bytes(order, e.border_width));
    lemma_u16_read(order, r, 24, e.border_width);
    assert(r[26] == r.subrange(2, 27)[24]);
}

/// An encoded ConfigureRequest event (code 23) carries the stack mode at 1, the
/// sequence number at 2, the parent at 4, the window at 8, the sibling at 12, x and y
/// at 16 and 18, width, height and border width at 20, 22 and 24, and the value mask
/// at 26.
pub proof fn lemma_configure_request_layout(e: ConfigureRequestEvent, order: ByteOrder)
    ensures
        ({
            let r = Event::ConfigureRequest(e).spec_encoded(32, order);
            &&& r.len() == 32
            &&& r[0] == 23
            &&& r[1] == e.stack_mode
            &&& u16_at(order, r, 2) == e.sequence
            &&& u32_at(order, r, 4) == e.parent.0.0
            &&& u32_at(order, r, 8) == e.window.0.0
            &&& u32_at(order, r, 12) == e.sibling.0.0
            &&& i16_at(order, r, 16) == e.x
            &&& i16_at(order, r, 18) == e.y
            &&& u16_at(order, r, 20) == e.width
            &&& u16_at(order, r, 22) == e.height
            &&& u16_at(order, r, 24) == e.border_width
            &&& u16_at(order, r, 26) == e.value_mask
        }),
{
    broadcast use group_wire_lengths;

    let ev = Event::ConfigureRequest(e);
    let r = ev.spec_encoded(32, order);
    let body = e.spec_body(order);
    assert(body.len() == 27);
    lemma_written_parts(zeros(32), 23, 1, body);
    assert(r[1] == r.subrange(1, 28)[0]);
    assert(r.subrange(2, 4) =~= body.subrange(1, 3));
    assert(body.subrange(1, 3) =~= u16_bytes(order, e.sequence));
    lemma_u16_read(order, r, 2, e.sequence);
    assert(r.subrange(4, 8) =~= body.subrange(3, 7));
    assert(body.subrange(3, 7) =~= u32_bytes(order, e.parent.0.0));
    lemma_u32_read(order, r, 4, e.parent.0.0);
    assert(r.subrange(8, 12) =~= body.subrange(7, 11));
    assert(body.subrange(7, 11) =~= u32_bytes(order, e.window.0.0));
    lemma_u32_read(order, r, 8, e.window.0.0);
    assert(r.subrange(12, 16) =~= body.subrange(11, 15));
    assert(body.subrange(11, 15) =~= u32_bytes(order, e.sibling.0.0));
    lemma_u32_read(order, r, 12, e.sibling.0.0);
    assert(r.subrange(16, 18) =~= body.subrange(15, 17));
    assert(body.subrange(15, 17) =~= i16_bytes(order, e.x));
    lemma_i16_read(order, r, 16, e.x);
    assert(r.subrange(18, 20) =~= body.subrange(17, 19));
    assert(body.subrange(17, 19) =~= i16_bytes(order, e.y));
    lemma_i16_read(order, r, 18, e.y);
    assert(r.subrange(20, 22) =~= body.subrange(19, 21));
    assert(body.subrange(19, 21) =~= u16_bytes(order, e.width));
    lemma_u16_read(order, r, 20, e.width);
    assert(r.subrange(22, 24) =~= body.subrange(21, 23));
    assert(body.subrange(21, 23) =~= u16_bytes(order, e.height));
    lemma_u16_read(order, r, 22, e.height);
    assert(r.subrange(24, 26) =~= body.subrange(23, 25));
    assert(body.subrange(23, 25) =~= u16_bytes(order, e.border_width));
    lemma_u16_read(order, r, 24, e.border_width);
    assert(r.subrange(26, 28) =~= body.subrange(25, 27));
    assert(body.subrange(25, 27) =~= u16_bytes(order, e.value_mask));
    lemma_u16_read(order, r, 26, e.value_mask);
}

/// An encoded PropertyNotify event (code 28) carries the sequence number at 2, the
/// window at 4, the atom at 8, the time at 12 and the state at 16.
pub proof fn lemma_property_notify_layout(e: PropertyNotifyEvent, order: ByteOrder)
    ensures
        ({
            let r = Event::PropertyNotify(e).spec_encoded(32, order);
            &&& r.len() == 32
            &&& r[0] == 28
            &&& u16_at(order, r, 2) == e.sequence
            &&& u32_at(order, r, 4) == e.window.0.0
            &&& u32_at(order, r, 8) == e.atom.0
            &&& u32_at(order, r, 12) == e.time.0
            &&& r[16] == e.state
        }),
{
    broadcast use group_wire_lengths;

    let ev = Event::PropertyNotify(e);
    let r = ev.spec_encoded(32, order);
    let body = e.spec_body(order);
    assert(body.len() == 15);
    lemma_written_parts(zeros(32), 28, 2, body);
    assert(r.subrange(2, 4) =~= body.subrange(0, 2));
    assert(body.subrange(0, 2) =~= u16_bytes(order, e.sequence));
    lemma_u16_read(order, r, 2, e.sequence);
    assert(r.subrange(4, 8) =~= body.subrange(2, 6));
    assert(body.subrange(2, 6) =~= u32_bytes(order, e.window.0.0));
    lemma_u32_read(order, r, 4, e.window.0.0);
    assert(r.subrange(8, 12) =~= body.subrange(6, 10));
    assert(body.subrange(6, 10) =~= u32_bytes(order, e.atom.0));
    lemma_u32_read(order, r, 8, e.atom.0);
    assert(r.subrange(12, 16) =~= body.subrange(10, 14));
    assert(body.subrange(10, 14) =~= u32_bytes(order, e.time.0));
    lemma_u32_read(order, r, 12, e.time.0);
    assert(r[16] == r.subrange(2, 17)[14]);
}

/// An encoded SelectionClear event (code 29) carries the sequence number at 2, the
/// time at 4, the owner at 8 and the selection at 12.
pub proof fn lemma_selection_clear_layout(e: SelectionClearEvent, order: ByteOrder)
    ensures
        ({
            let r = Event::SelectionClear(e).spec_encoded(32, order);
            &&& r.len() == 32
            &&& r[0] == 29
            &&& u16_at(order, r, 2) == e.sequence
            &&& u32_at(order, r, 4) == e.time.0
            &&& u32_at(order, r, 8) == e.owner.0.0
            &&& u32_at(order, r, 12) == e.selection.0
        }),
{
    broadcast use group_wire_lengths;

    let ev = Event::SelectionClear(e);
    let r = ev.spec_encoded(32, order);
    let body = e.spec_body(order);
    assert(body.len() == 14);
    lemma_written_parts(zeros(32), 29, 2, body);
    assert(r.subrange(2, 4) =~= body.subrange(0, 2));
    assert(body.subrange(0, 2) =~= u16_bytes(order, e.sequence));
    lemma_u16_read(order, r, 2, e.sequence);
    assert(r.subrange(4, 8) =~= body.subrange(2, 6));
    assert(body.subrange(2, 6) =~= u32_bytes(order, e.time.0));
    lemma_u32_read(order, r, 4, e.time.0);
    assert(r.subrange(8, 12) =~= body.subrange(6, 10));
    assert(body.subrange(6, 10) =~= u32_bytes(order, e.owner.0.0));
    lemma_u32_read(order, r, 8, e.owner.0.0);
    assert(r.subrange(12, 16) =~= body.subrange(10, 14));
    assert(body.subrange(10, 14) =~= u32_bytes(order, e.selection.0));
    lemma_u32_read(order, r, 12, e.selection.0);
}

/// An encoded SelectionRequest event (code 30) carries the sequence number at 2, the
/// time at 4, the owner at 8, the requestor at 12, the selection at 16, the target at
/// 20 and the property at 24.
pub proof fn lemma_selection_request_layout(e: SelectionRequestEvent, order: ByteOrder)
    ensures
        ({
            let r = Event::SelectionRequest(e).spec_encoded(32, order);
            &&& r.len() == 32
            &&& r[0] == 30
            &&& u16_at(order, r, 2) == e.sequence
            &&& u32_at(order, r, 4) == e.time.0
            &&& u32_at(order, r, 8) == e.owner.0.0
            &&& u32_at(order, r, 12) == e.requestor.0.0
            &&& u32_at(order, r, 16) == e.selection.0
            &&& u32_at(order, r, 20) == e.target.0
            &&& u32_at(order, r, 24) == e.property.0
        }),
{
    broadcast use group_wire_lengths;

    let ev = Event::SelectionRequest(e);
    let r = ev.spec_encoded(32, order);
    let body = e.spec_body(order);
    assert(body.len() == 26);
    lemma_written_parts(zeros(32), 30, 2, body);
    assert(r.subrange(2, 4) =~= body.subrange(0, 2));
    assert(body.subrange(0, 2) =~= u16_bytes(order, e.sequence));
    lemma_u16_read(order, r, 2, e.sequence);
    assert(r.subrange(4, 8) =~= body.subrange(2, 6));
    assert(body.subrange(2, 6) =~= u32_bytes(order, e.time.0));
    lemma_u32_read(order, r, 4, e.time.0);
    assert(r.subrange(8, 12) =~= body.subrange(6, 10));
    assert(body.subrange(6, 10) =~= u32_bytes(order, e.owner.0.0));
    lemma_u32_read(order, r, 8, e.owner.0.0);
    assert(r.subrange(12, 16) =~= body.subrange(10, 14));
    assert(body.subrange(10, 14) =~= u32_bytes(order, e.requestor.0.0));
    lemma_u32_read(order, r, 12, e.requestor.0.0);
    assert(r.subrange(16, 20) =~= body.subrange(14, 18));
    assert(body.subrange(14, 18) =~= u32_bytes(order, e.selection.0));
    lemma_u32_read(order, r, 16, e.selection.0);
    assert(r.subrange(20, 24) =~= body.subrange(18, 22));
    assert(body.subrange(18, 22) =~= u32_bytes(order, e.target.0));
    lemma_u32_read(order, r, 20, e.target.0);
    assert(r.subrange(24, 28) =~= body.subrange(22, 26));
    assert(body.subrange(22, 26) =~= u32_bytes(order, e.property.0));
    lemma_u32_read(order, r, 24, e.property.0);
}

/// An encoded SelectionNotify event (code 31) carries the sequence number at 2, the
/// time at 4, the requestor at 8, the selection at 12, the target at 16 and the
/// property at 20.
pub proof fn lemma_selection_notify_layout(e: SelectionNotifyEvent, order: ByteOrder)
    ensures
        ({
            let r = Event::SelectionNotify(e).spec_encoded(32, order);
            &&& r.len() == 32
            &&& r[0] == 31
            &&& u16_at(order, r, 2) == e.sequence
            &&& u32_at(order, r, 4) == e.time.0
            &&& u32_at(order, r, 8) == e.requestor.0.0
            &&& u32_at(order, r, 12) == e.selection.0
            &&& u32_at(order, r, 16) == e.target.0
            &&& u32_at(order, r, 20) == e.property.0
        }),
{
    broadcast use group_wire_lengths;

    let ev = Event::SelectionNotify(e);
    let r = ev.spec_encoded(32, order);
    let body = e.spec_body(order);
    assert(body.len() == 22);
    lemma_written_parts(zeros(32), 31, 2, body);
    assert(r.subrange(2, 4) =~= body.subrange(0, 2));
    assert(body.subrange(0, 2) =~= u16_bytes(order, e.sequence));
    lemma_u16_read(order, r, 2, e.sequence);
    assert(r.subrange(4, 8) =~= body.subrange(2, 6));
    assert(body.subrange(2, 6) =~= u32_bytes(order, e.time.0));
    lemma_u32_read(order, r, 4, e.time.0);
    assert(r.subrange(8, 12) =~= body.subrange(6, 10));
    assert(body.subrange(6, 10) =~= u32_bytes(order, e.requestor.0.0));
    lemma_u32_read(order, r, 8, e.requestor.0.0);
    assert(r.subrange(12, 16) =~= body.subrange(10, 14));
    assert(body.subrange(10, 14) =~= u32_bytes(order, e.selection.0));
    lemma_u32_read(order, r, 12, e.selection.0);
    assert(r.subrange(16, 20) =~= body.subrange(14, 18));
    assert(body.subrange(14, 18) =~= u32_bytes(order, e.target.0));
    lemma_u32_read(order, r, 16, e.target.0);
    assert(r.subrange(20, 24) =~= body.subrange(18, 22));
    assert(body.subrange(18, 22) =~= u32_bytes(order, e.property.0));
    lemma_u32_read(order, r, 20, e.property.0);
}

/// An encoded ClientMessage event (code 33) carries the format at 1, the sequence
/// number at 2, the window at 4 and the message type at 8.
pub proof fn lemma_client_message_layout(e: ClientMessageEvent, order: ByteOrder)
    ensures
        ({
            let r = Event::ClientMessage(e).spec_encoded(32, order);
            &&& r.len() == 32
            &&& r[0] == 33
            &&& r[1] == e.format
            &&& u16_at(order, r, 2) == e.sequence
            &&& u32_at(order, r, 4) == e.window.0.0
            &&& u32_at(order, r, 8) == e.type_.0
        }),
{
    broadcast use group_wire_lengths;

    let ev = Event::ClientMessage(e);
    let r = ev.spec_encoded(32, order);
    let body = e.spec_body(order);
    e.data.lemma_len(order);
    assert(body.len() == 31);
    lemma_written_parts(zeros(32), 33, 1, body);
    assert(r[1] == r.subrange(1, 32)[0]);
    assert(r.subrange(2, 4) =~= body.subrange(1, 3));
    assert(body.subrange(1, 3) =~= u16_bytes(order, e.sequence));
    lemma_u16_read(order, r, 2, e.sequence);
    assert(r.subrange(4, 8) =~= body.subrange(3, 7));
    assert(body.subrange(3, 7) =~= u32_bytes(order, e.window.0.0));
    lemma_u32_read(order, r, 4, e.window.0.0);
    assert(r.subrange(8, 12) =~= body.subrange(7, 11));
    assert(body.subrange(7, 11) =~= u32_bytes(order, e.type_.0));
    lemma_u32_read(order, r, 8, e.type_.0);
}

} // verus!
