//! X11 protocol error codes and error packets.
use vstd::prelude::*;
use super::types::{Atom, ByteOrder, Drawable, GContext, Pixmap, Window};
use super::wire::{
    decimal_digits, decimal_string, group_wire_lengths, hex_digits, hex_string, lemma_u16_read,
    lemma_u32_read, push_u16, push_u32, push_zeros, put_bytes, splice, u16_at, u16_bytes, u32_at,
    u32_bytes, zeros,
};

verus! {

/// X11 error codes as defined in the protocol
#[derive(Debug, Clone, Copy, PartialEq, Eq, Structural)]
pub enum ErrorCode {
    Request,
    Value,
    Window,
    Pixmap,
    Atom,
    Cursor,
    Font,
    Match,
    Drawable,
    Access,
    Alloc,
    Colormap,
    GContext,
    IDChoice,
    Name,
    Length,
    Implementation,
}

impl ErrorCode {
    /// The code's number on the wire.
    pub open spec fn spec_code(self) -> u8 {
        match self {
            ErrorCode::Request => 1,
            ErrorCode::Value => 2,
            ErrorCode::Window => 3,
            ErrorCode::Pixmap => 4,
            ErrorCode::Atom => 5,
            ErrorCode::Cursor => 6,
            ErrorCode::Font => 7,
            ErrorCode::Match => 8,
            ErrorCode::Drawable => 9,
            ErrorCode::Access => 10,
            ErrorCode::Alloc => 11,
            ErrorCode::Colormap => 12,
            ErrorCode::GContext => 13,
            ErrorCode::IDChoice => 14,
            ErrorCode::Name => 15,
            ErrorCode::Length => 16,
            ErrorCode::Implementation => 17,
        }
    }

    pub fn code(&self) -> (r: u8)
        ensures
            r == self.spec_code(),
    {
        match self {
            ErrorCode::Request => 1,
            ErrorCode::Value => 2,
            ErrorCode::Window => 3,
            ErrorCode::Pixmap => 4,
            ErrorCode::Atom => 5,
            ErrorCode::Cursor => 6,
            ErrorCode::Font => 7,
            ErrorCode::Match => 8,
            ErrorCode::Drawable => 9,
            ErrorCode::Access => 10,
            ErrorCode::Alloc => 11,
            ErrorCode::Colormap => 12,
            ErrorCode::GContext => 13,
            ErrorCode::IDChoice => 14,
            ErrorCode::Name => 15,
            ErrorCode::Length => 16,
            ErrorCode::Implementation => 17,
        }
    }

    pub fn from_u8(code: u8) -> (r: Option<Self>)
        ensures
            match r {
                Some(e) => 1 <= code <= 17 && e.spec_code() == code,
                None => !(1 <= code <= 17),
            },
    {
        match code {
            1 => Some(ErrorCode::Request),
            2 => Some(ErrorCode::Value),
            3 => Some(ErrorCode::Window),
            4 => Some(ErrorCode::Pixmap),
            5 => Some(ErrorCode::Atom),
            6 => Some(ErrorCode::Cursor),
            7 => Some(ErrorCode::Font),
            8 => Some(ErrorCode::Match),
            9 => Some(ErrorCode::Drawable),
            10 => Some(ErrorCode::Access),
            11 => Some(ErrorCode::Alloc),
            12 => Some(ErrorCode::Colormap),
            13 => Some(ErrorCode::GContext),
            14 => Some(ErrorCode::IDChoice),
            15 => Some(ErrorCode::Name),
            16 => Some(ErrorCode::Length),
            17 => Some(ErrorCode::Implementation),
            _ => None,
        }
    }

    /// The text of the code: its name and a short description.
    pub open spec fn description(self) -> Seq<char> {
        match self {
            ErrorCode::Request => "Request: bad request code"@,
            ErrorCode::Value => "Value: integer parameter out of range"@,
            ErrorCode::Window => "Window: invalid Window parameter"@,
            ErrorCode::Pixmap => "Pixmap: invalid Pixmap parameter"@,
            ErrorCode::Atom => "Atom: invalid Atom parameter"@,
            ErrorCode::Cursor => "Cursor: invalid Cursor parameter"@,
            ErrorCode::Font => "Font: invalid Font parameter"@,
            ErrorCode::Match => "Match: parameter mismatch"@,
            ErrorCode::Drawable => "Drawable: invalid Drawable parameter"@,
            ErrorCode::Access => "Access: attempt to access private resource"@,
            ErrorCode::Alloc => "Alloc: insufficient resources"@,
            ErrorCode::Colormap => "Colormap: invalid Colormap parameter"@,
            ErrorCode::GContext => "GContext: invalid GC parameter"@,
            ErrorCode::IDChoice => "IDChoice: invalid resource ID for this connection"@,
            ErrorCode::Name => "Name: font or color name doesn't exist"@,
            ErrorCode::Length => "Length: request length incorrect"@,
            ErrorCode::Implementation => "Implementation: server implementation error"@,
        }
    }

    /// A short description of the error.
    pub fn as_str(&self) -> (r: &'static str)
        ensures
            r@ == self.description(),
    {
        match self {
            ErrorCode::Request => "Request: bad request code",
            ErrorCode::Value => "Value: integer parameter out of range",
            ErrorCode::Window => "Window: invalid Window parameter",
            ErrorCode::Pixmap => "Pixmap: invalid Pixmap parameter",
            ErrorCode::Atom => "Atom: invalid Atom parameter",
            ErrorCode::Cursor => "Cursor: invalid Cursor parameter",
            ErrorCode::Font => "Font: invalid Font parameter",
            ErrorCode::Match => "Match: parameter mismatch",
            ErrorCode::Drawable => "Drawable: invalid Drawable parameter",
            ErrorCode::Access => "Access: attempt to access private resource",
            ErrorCode::Alloc => "Alloc: insufficient resources",
            ErrorCode::Colormap => "Colormap: invalid Colormap parameter",
            ErrorCode::GContext => "GContext: invalid GC parameter",
            ErrorCode::IDChoice => "IDChoice: invalid resource ID for this connection",
            ErrorCode::Name => "Name: font or color name doesn't exist",
            ErrorCode::Length => "Length: request length incorrect",
            ErrorCode::Implementation => "Implementation: server implementation error",
        }
    }

    /// The code as text, as its `Display` writes it: its description.
    pub fn to_string(&self) -> (r: String)
        ensures
            r@ == self.description(),
    {
        self.as_str().to_string()
    }
}

/// X11 error packet
#[derive(Debug, Clone, Copy, PartialEq, Eq, Structural)]
pub struct X11Error {
    pub code: ErrorCode,
    pub sequence: u16,
    pub bad_value: u32,
    pub minor_opcode: u16,
    pub major_opcode: u8,
}

/// The error with the given fields.
pub open spec fn x11_error(
    code: ErrorCode,
    sequence: u16,
    bad_value: u32,
    minor_opcode: u16,
    major_opcode: u8,
) -> X11Error {
    X11Error { code, sequence, bad_value, minor_opcode, major_opcode }
}

/// The 32 bytes of an error packet: type 0, the code, the sequence number, the bad
/// value, the minor and major opcodes, and zero padding.
pub open spec fn error_bytes(e: X11Error, order: ByteOrder) -> Seq<u8> {
    seq![0u8, e.code.spec_code()] + u16_bytes(order, e.sequence) + u32_bytes(order, e.bad_value)
        + u16_bytes(order, e.minor_opcode) + seq![e.major_opcode] + zeros(21)
}

/// Result type for X11 operations
pub type X11Result<T> = Result<T, X11Error>;

/// The text of an error, as its `Display` writes it: the code's description, the
/// sequence number, the bad value in eight hexadecimal digits, and the opcodes.
pub open spec fn error_text(e: X11Error) -> Seq<char> {
    "X11 Error: "@ + e.code.description() + " (sequence: "@ + decimal_digits(e.sequence as nat)
        + ", value: 0x"@ + hex_digits(e.bad_value as nat, 8) + ", major: "@ + decimal_digits(
        e.major_opcode as nat,
    ) + ", minor: "@ + decimal_digits(e.minor_opcode as nat) + ")"@
}

impl X11Error {
    /// The error as text (see `error_text`).
    pub fn to_string(&self) -> (r: String)
        ensures
            r@ == error_text(*self),
    {
        let sequence = decimal_string(self.sequence as usize);
        let value = hex_string(self.bad_value, 8);
        let major = decimal_string(self.major_opcode as usize);
        let minor = decimal_string(self.minor_opcode as usize);
        "X11 Error: ".to_string().concat(self.code.as_str()).concat(" (sequence: ").concat(
            sequence.as_str(),
        ).concat(", value: 0x").concat(value.as_str()).concat(", major: ").concat(
            major.as_str(),
        ).concat(", minor: ").concat(minor.as_str()).concat(")")
    }

    pub fn new(
        code: ErrorCode,
        sequence: u16,
        bad_value: u32,
        minor_opcode: u16,
        major_opcode: u8,
    ) -> (r: Self)
        ensures
            r == x11_error(code, sequence, bad_value, minor_opcode, major_opcode),
    {
        X11Error { code, sequence, bad_value, minor_opcode, major_opcode }
    }

    /// The packet's 32 bytes in `order`.
    pub fn to_bytes(&self, order: ByteOrder) -> (r: Vec<u8>)
        ensures
            r@ == error_bytes(*self, order),
            r@.len() == 32,
    {
        let mut buf: Vec<u8> = Vec::new();
        buf.push(0u8);
        buf.push(self.code.code());
        push_u16(&mut buf, order, self.sequence);
        push_u32(&mut buf, order, self.bad_value);
        push_u16(&mut buf, order, self.minor_opcode);
        buf.push(self.major_opcode);
        push_zeros(&mut buf, 21);
        assert(buf@ =~= error_bytes(*self, order));
        buf
    }

    /// Writes the packet into the first 32 bytes of `buffer` in `order`.
    pub fn encode_with_order(&self, buffer: &mut [u8], order: ByteOrder)
        requires
            old(buffer)@.len() >= 32,
        ensures
            final(buffer)@ == splice(old(buffer)@, 0, error_bytes(*self, order)),
    {
        let bytes = self.to_bytes(order);
        put_bytes(buffer, 0, bytes.as_slice());
    }

    /// Writes the packet into the first 32 bytes of `buffer` in the machine's
    /// native byte order.
    pub fn encode(&self, buffer: &mut [u8])
        requires
            old(buffer)@.len() >= 32,
        ensures
            final(buffer)@ == splice(old(buffer)@, 0, error_bytes(*self, ByteOrder::LSBFirst))
                || final(buffer)@ == splice(old(buffer)@, 0, error_bytes(*self, ByteOrder::MSBFirst)),
    {
        let order = ByteOrder::native();
        self.encode_with_order(buffer, order);
    }

    pub fn bad_request(sequence: u16, major_opcode: u8) -> (r: Self)
        ensures
            r == x11_error(ErrorCode::Request, sequence, 0, 0, major_opcode),
    {
        X11Error::new(ErrorCode::Request, sequence, 0, 0, major_opcode)
    }

    pub fn bad_value(sequence: u16, value: u32, major_opcode: u8) -> (r: Self)
        ensures
            r == x11_error(ErrorCode::Value, sequence, value, 0, major_opcode),
    {
        X11Error::new(ErrorCode::Value, sequence, value, 0, major_opcode)
    }

    pub fn bad_window(sequence: u16, window: Window, major_opcode: u8) -> (r: Self)
        ensures
            r == x11_error(ErrorCode::Window, sequence, window.0.0, 0, major_opcode),
    {
        X11Error::new(ErrorCode::Window, sequence, window.id().get(), 0, major_opcode)
    }

    pub fn bad_pixmap(sequence: u16, pixmap: Pixmap, major_opcode: u8) -> (r: Self)
        ensures
            r == x11_error(ErrorCode::Pixmap, sequence, pixmap.0.0, 0, major_opcode),
    {
        X11Error::new(ErrorCode::Pixmap, sequence, pixmap.id().get(), 0, major_opcode)
    }

    pub fn bad_atom(sequence: u16, atom: Atom, major_opcode: u8) -> (r: Self)
        ensures
            r == x11_error(ErrorCode::Atom, sequence, atom.0, 0, major_opcode),
    {
        X11Error::new(ErrorCode::Atom, sequence, atom.get(), 0, major_opcode)
    }

    pub fn bad_drawable(sequence: u16, drawable: Drawable, major_opcode: u8) -> (r: Self)
        ensures
            r == x11_error(ErrorCode::Drawable, sequence, drawable.spec_id().0, 0, major_opcode),
    {
        X11Error::new(ErrorCode::Drawable, sequence, drawable.id().get(), 0, major_opcode)
    }

    pub fn bad_gc(sequence: u16, gc: GContext, major_opcode: u8) -> (r: Self)
        ensures
            r == x11_error(ErrorCode::GContext, sequence, gc.0.0, 0, major_opcode),
    {
        X11Error::new(ErrorCode::GContext, sequence, gc.id().get(), 0, major_opcode)
    }

    pub fn bad_match(sequence: u16, major_opcode: u8) -> (r: Self)
        ensures
            r == x11_error(ErrorCode::Match, sequence, 0, 0, major_opcode),
    {
        X11Error::new(ErrorCode::Match, sequence, 0, 0, major_opcode)
    }

    pub fn bad_access(sequence: u16, major_opcode: u8) -> (r: Self)
        ensures
            r == x11_error(ErrorCode::Access, sequence, 0, 0, major_opcode),
    {
        X11Error::new(ErrorCode::Access, sequence, 0, 0, major_opcode)
    }

    pub fn bad_alloc(sequence: u16, major_opcode: u8) -> (r: Self)
        ensures
            r == x11_error(ErrorCode::Alloc, sequence, 0, 0, major_opcode),
    {
        X11Error::new(ErrorCode::Alloc, sequence, 0, 0, major_opcode)
    }

    pub fn bad_id_choice(sequence: u16, id: u32, major_opcode: u8) -> (r: Self)
        ensures
            r == x11_error(ErrorCode::IDChoice, sequence, id, 0, major_opcode),
    {
        X11Error::new(ErrorCode::IDChoice, sequence, id, 0, major_opcode)
    }

    pub fn bad_name(sequence: u16, major_opcode: u8) -> (r: Self)
        ensures
            r == x11_error(ErrorCode::Name, sequence, 0, 0, major_opcode),
    {
        X11Error::new(ErrorCode::Name, sequence, 0, 0, major_opcode)
    }

    pub fn bad_length(sequence: u16, major_opcode: u8) -> (r: Self)
        ensures
            r == x11_error(ErrorCode::Length, sequence, 0, 0, major_opcode),
    {
        X11Error::new(ErrorCode::Length, sequence, 0, 0, major_opcode)
    }

    pub fn implementation_error(sequence: u16, major_opcode: u8) -> (r: Self)
        ensures
            r == x11_error(ErrorCode::Implementation, sequence, 0, 0, major_opcode),
    {
        X11Error::new(ErrorCode::Implementation, sequence, 0, 0, major_opcode)
    }
}

/// Decoding a code's number gives the code back.
pub proof fn lemma_error_code_roundtrip(e: ErrorCode)
    ensures
        1 <= e.spec_code() <= 17,
        forall|f: ErrorCode| f.spec_code() == e.spec_code() ==> f == e,
{
}

impl ErrorCode {
    /// The name of the code, as the variant is called.
    pub open spec fn name(self) -> Seq<char> {
        match self {
            ErrorCode::Request => "Request"@,
            ErrorCode::Value => "Value"@,
            ErrorCode::Window => "Window"@,
            ErrorCode::Pixmap => "Pixmap"@,
            ErrorCode::Atom => "Atom"@,
            ErrorCode::Cursor => "Cursor"@,
            ErrorCode::Font => "Font"@,
            ErrorCode::Match => "Match"@,
            ErrorCode::Drawable => "Drawable"@,
            ErrorCode::Access => "Access"@,
            ErrorCode::Alloc => "Alloc"@,
            ErrorCode::Colormap => "Colormap"@,
            ErrorCode::GContext => "GContext"@,
            ErrorCode::IDChoice => "IDChoice"@,
            ErrorCode::Name => "Name"@,
            ErrorCode::Length => "Length"@,
            ErrorCode::Implementation => "Implementation"@,
        }
    }

    /// The first two characters of the code's name.
    pub open spec fn initials(self) -> (char, char) {
        match self {
            ErrorCode::Request => ('R', 'e'),
            ErrorCode::Value => ('V', 'a'),
            ErrorCode::Window => ('W', 'i'),
            ErrorCode::Pixmap => ('P', 'i'),
            ErrorCode::Atom => ('A', 't'),
            ErrorCode::Cursor => ('C', 'u'),
            ErrorCode::Font => ('F', 'o'),
            ErrorCode::Match => ('M', 'a'),
            ErrorCode::Drawable => ('D', 'r'),
            ErrorCode::Access => ('A', 'c'),
            ErrorCode::Alloc => ('A', 'l'),
            ErrorCode::Colormap => ('C', 'o'),
            ErrorCode::GContext => ('G', 'C'),
            ErrorCode::IDChoice => ('I', 'D'),
            ErrorCode::Name => ('N', 'a'),
            ErrorCode::Length => ('L', 'e'),
            ErrorCode::Implementation => ('I', 'm'),
        }
    }
}

/// Each description begins with the code's name and ": ", and starts with the
/// code's initials.
proof fn lemma_description_shape(e: ErrorCode)
    ensures
        e.description().len() > e.name().len() + 2,
        e.description().take(e.name().len() + 2int) == e.name() + ": "@,
        e.description()[0] == e.initials().0,
        e.description()[1] == e.initials().1,
{
    reveal_strlit(": ");
    match e {
        ErrorCode::Request => {
            reveal_strlit("Request: bad request code");
            reveal_strlit("Request");
        },
        ErrorCode::Value => {
            reveal_strlit("Value: integer parameter out of range");
            reveal_strlit("Value");
        },
        ErrorCode::Window => {
            reveal_strlit("Window: invalid Window parameter");
            reveal_strlit("Window");
        },
        ErrorCode::Pixmap => {
            reveal_strlit("Pixmap: invalid Pixmap parameter");
            reveal_strlit("Pixmap");
        },
        ErrorCode::Atom => {
            reveal_strlit("Atom: invalid Atom parameter");
            reveal_strlit("Atom");
        },
        ErrorCode::Cursor => {
            reveal_strlit("Cursor: invalid Cursor parameter");
            reveal_strlit("Cursor");
        },
        ErrorCode::Font => {
            reveal_strlit("Font: invalid Font parameter");
            reveal_strlit("Font");
        },
        ErrorCode::Match => {
            reveal_strlit("Match: parameter mismatch");
            reveal_strlit("Match");
        },
        ErrorCode::Drawable => {
            reveal_strlit("Drawable: invalid Drawable parameter");
            reveal_strlit("Drawable");
        },
        ErrorCode::Access => {
            reveal_strlit("Access: attempt to access private resource");
            reveal_strlit("Access");
        },
        ErrorCode::Alloc => {
            reveal_strlit("Alloc: insufficient resources");
            reveal_strlit("Alloc");
        },
        ErrorCode::Colormap => {
            reveal_strlit("Colormap: invalid Colormap parameter");
            reveal_strlit("Colormap");
        },
        ErrorCode::GContext => {
            reveal_strlit("GContext: invalid GC parameter");
            reveal_strlit("GContext");
        },
        ErrorCode::IDChoice => {
            reveal_strlit("IDChoice: invalid resource ID for this connection");
            reveal_strlit("IDChoice");
        },
        ErrorCode::Name => {
            reveal_strlit("Name: font or color name doesn't exist");
            reveal_strlit("Name");
        },
        ErrorCode::Length => {
            reveal_strlit("Length: request length incorrect");
            reveal_strlit("Length");
        },
        ErrorCode::Implementation => {
            reveal_strlit("Implementation: server implementation error");
            reveal_strlit("Implementation");
        },
    }
    assert(e.description().take(e.name().len() + 2int) =~= e.name() + ": "@);
}

/// The descriptions tell the codes apart, and each begins with the code's name
/// followed by ": " (as in "Length: request length incorrect").
pub proof fn lemma_descriptions_distinct(e: ErrorCode, f: ErrorCode)
    ensures
        e.description().take(e.name().len() + 2int) == e.name() + ": "@,
        e != f ==> e.description() != f.description(),
{
    lemma_description_shape(e);
    lemma_description_shape(f);
}

/// An error packet carries 0 in its first byte, the error code at 1, the sequence
/// number at 2, the bad value at 4, the minor opcode at 8 and the major opcode at 10.
pub proof fn lemma_error_bytes_layout(
    e: X11Error,
    order: ByteOrder,
)
    ensures
        ({
            let r = error_bytes(e, order);
            &&& r.len() == 32
            &&& r[0] == 0
            &&& r[1] == e.code.spec_code()
            &&& u16_at(order, r, 2) == e.sequence
            &&& u32_at(order, r, 4) == e.bad_value
            &&& u16_at(order, r, 8) == e.minor_opcode
            &&& r[10] == e.major_opcode
        }),
{
    broadcast use group_wire_lengths;

    let r = error_bytes(e, order);
    assert(r[0] == 0);
    assert(r[1] == e.code.spec_code());
    assert(r.subrange(2, 4) =~= u16_bytes(order, e.sequence));
    lemma_u16_read(order, r, 2, e.sequence);
    assert(r.subrange(4, 8) =~= u32_bytes(order, e.bad_value));
    lemma_u32_read(order, r, 4, e.bad_value);
    assert(r.subrange(8, 10) =~= u16_bytes(order, e.minor_opcode));
    lemma_u16_read(order, r, 8, e.minor_opcode);
    assert(r[10] == e.major_opcode);
}

} // verus!
