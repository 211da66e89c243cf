//! X11 request opcodes, the request header, and a cursor for reading request fields.
use vstd::prelude::*;
use super::types::{Atom, ByteOrder, Drawable, GContext, Pixmap, Window, XID};
use super::errors::{x11_error, ErrorCode, X11Error};
use super::wire::{u16_at, u16_as_i16, u32_at, u16_to_i16, read_u16_at, read_u32_at};

verus! {

/// X11 request opcodes
#[derive(Debug, Clone, Copy, PartialEq, Eq, Structural)]
pub enum RequestOpcode {
    CreateWindow,
    ChangeWindowAttributes,
    GetWindowAttributes,
    DestroyWindow,
    DestroySubwindows,
    ChangeSaveSet,
    ReparentWindow,
    MapWindow,
    MapSubwindows,
    UnmapWindow,
    UnmapSubwindows,
    ConfigureWindow,
    CirculateWindow,
    GetGeometry,
    QueryTree,
    InternAtom,
    GetAtomName,
    ChangeProperty,
    DeleteProperty,
    GetProperty,
    ListProperties,
    SetSelectionOwner,
    GetSelectionOwner,
    ConvertSelection,
    SendEvent,
    GrabPointer,
    UngrabPointer,
    GrabButton,
    UngrabButton,
    ChangeActivePointerGrab,
    GrabKeyboard,
    UngrabKeyboard,
    GrabKey,
    UngrabKey,
    AllowEvents,
    GrabServer,
    UngrabServer,
    QueryPointer,
    GetMotionEvents,
    TranslateCoordinates,
    WarpPointer,
    SetInputFocus,
    GetInputFocus,
    QueryKeymap,
    OpenFont,
    CloseFont,
    QueryFont,
    QueryTextExtents,
    ListFonts,
    ListFontsWithInfo,
    SetFontPath,
    GetFontPath,
    CreatePixmap,
    FreePixmap,
    CreateGC,
    ChangeGC,
    CopyGC,
    SetDashes,
    SetClipRectangles,
    FreeGC,
    ClearArea,
    CopyArea,
    CopyPlane,
    PolyPoint,
    PolyLine,
    PolySegment,
    PolyRectangle,
    PolyArc,
    FillPoly,
    PolyFillRectangle,
    PolyFillArc,
    PutImage,
    GetImage,
    PolyText8,
    PolyText16,
    ImageText8,
    ImageText16,
    CreateColormap,
    FreeColormap,
    CopyColormapAndFree,
    InstallColormap,
    UninstallColormap,
    ListInstalledColormaps,
    AllocColor,
    AllocNamedColor,
    AllocColorCells,
    AllocColorPlanes,
    FreeColors,
    StoreColors,
    StoreNamedColor,
    QueryColors,
    LookupColor,
    CreateCursor,
    CreateGlyphCursor,
    FreeCursor,
    RecolorCursor,
    QueryBestSize,
    QueryExtension,
    ListExtensions,
    ChangeKeyboardMapping,
    GetKeyboardMapping,
    ChangeKeyboardControl,
    GetKeyboardControl,
    Bell,
    ChangePointerControl,
    GetPointerControl,
    SetScreenSaver,
    GetScreenSaver,
    ChangeHosts,
    ListHosts,
    SetAccessControl,
    SetCloseDownMode,
    KillClient,
    RotateProperties,
    ForceScreenSaver,
    SetPointerMapping,
    GetPointerMapping,
    SetModifierMapping,
    GetModifierMapping,
    NoOperation,
}

impl RequestOpcode {
    /// The opcodes that this server recognizes, by number.
    pub open spec fn spec_from_u8(opcode: u8) -> Option<RequestOpcode> {
        match opcode {
            1 => Some(RequestOpcode::CreateWindow),
            2 => Some(RequestOpcode::ChangeWindowAttributes),
            3 => Some(RequestOpcode::GetWindowAttributes),
            4 => Some(RequestOpcode::DestroyWindow),
            5 => Some(RequestOpcode::DestroySubwindows),
            6 => Some(RequestOpcode::ChangeSaveSet),
            7 => Some(RequestOpcode::ReparentWindow),
            8 => Some(RequestOpcode::MapWindow),
            9 => Some(RequestOpcode::MapSubwindows),
            10 => Some(RequestOpcode::UnmapWindow),
            11 => Some(RequestOpcode::UnmapSubwindows),
            12 => Some(RequestOpcode::ConfigureWindow),
            13 => Some(RequestOpcode::CirculateWindow),
            14 => Some(RequestOpcode::GetGeometry),
            15 => Some(RequestOpcode::QueryTree),
            16 => Some(RequestOpcode::InternAtom),
            17 => Some(RequestOpcode::GetAtomName),
            18 => Some(RequestOpcode::ChangeProperty),
            19 => Some(RequestOpcode::DeleteProperty),
            20 => Some(RequestOpcode::GetProperty),
            21 => Some(RequestOpcode::ListProperties),
            22 => Some(RequestOpcode::SetSelectionOwner),
            23 => Some(RequestOpcode::GetSelectionOwner),
            24 => Some(RequestOpcode::ConvertSelection),
            25 => Some(RequestOpcode::SendEvent),
            43 => Some(RequestOpcode::GetInputFocus),
            45 => Some(RequestOpcode::OpenFont),
            46 => Some(RequestOpcode::CloseFont),
            47 => Some(RequestOpcode::QueryFont),
            53 => Some(RequestOpcode::CreatePixmap),
            54 => Some(RequestOpcode::FreePixmap),
            55 => Some(RequestOpcode::CreateGC),
            56 => Some(RequestOpcode::ChangeGC),
            60 => Some(RequestOpcode::FreeGC),
            61 => Some(RequestOpcode::ClearArea),
            62 => Some(RequestOpcode::CopyArea),
            64 => Some(RequestOpcode::PolyPoint),
            65 => Some(RequestOpcode::PolyLine),
            66 => Some(RequestOpcode::PolySegment),
            67 => Some(RequestOpcode::PolyRectangle),
            68 => Some(RequestOpcode::PolyArc),
            69 => Some(RequestOpcode::FillPoly),
            70 => Some(RequestOpcode::PolyFillRectangle),
            71 => Some(RequestOpcode::PolyFillArc),
            72 => Some(RequestOpcode::PutImage),
            73 => Some(RequestOpcode::GetImage),
            74 => Some(RequestOpcode::PolyText8),
            76 => Some(RequestOpcode::ImageText8),
            85 => Some(RequestOpcode::AllocNamedColor),
            94 => Some(RequestOpcode::CreateGlyphCursor),
            98 => Some(RequestOpcode::QueryExtension),
            99 => Some(RequestOpcode::ListExtensions),
            104 => Some(RequestOpcode::Bell),
            127 => Some(RequestOpcode::NoOperation),
            _ => None,
        }
    }

    pub fn from_u8(opcode: u8) -> (r: Option<Self>)
        ensures
            r == Self::spec_from_u8(opcode),
    {
        match opcode {
            1 => Some(RequestOpcode::CreateWindow),
            2 => Some(RequestOpcode::ChangeWindowAttributes),
            3 => Some(RequestOpcode::GetWindowAttributes),
            4 => Some(RequestOpcode::DestroyWindow),
            5 => Some(RequestOpcode::DestroySubwindows),
            6 => Some(RequestOpcode::ChangeSaveSet),
            7 => Some(RequestOpcode::ReparentWindow),
            8 => Some(RequestOpcode::MapWindow),
            9 => Some(RequestOpcode::MapSubwindows),
            10 => Some(RequestOpcode::UnmapWindow),
            11 => Some(RequestOpcode::UnmapSubwindows),
            12 => Some(RequestOpcode::ConfigureWindow),
            13 => Some(RequestOpcode::CirculateWindow),
            14 => Some(RequestOpcode::GetGeometry),
            15 => Some(RequestOpcode::QueryTree),
            16 => Some(RequestOpcode::InternAtom),
            17 => Some(RequestOpcode::GetAtomName),
            18 => Some(RequestOpcode::ChangeProperty),
            19 => Some(RequestOpcode::DeleteProperty),
            20 => Some(RequestOpcode::GetProperty),
            21 => Some(RequestOpcode::ListProperties),
            22 => Some(RequestOpcode::SetSelectionOwner),
            23 => Some(RequestOpcode::GetSelectionOwner),
            24 => Some(RequestOpcode::ConvertSelection),
            25 => Some(RequestOpcode::SendEvent),
            43 => Some(RequestOpcode::GetInputFocus),
            45 => Some(RequestOpcode::OpenFont),
            46 => Some(RequestOpcode::CloseFont),
            47 => Some(RequestOpcode::QueryFont),
            53 => Some(RequestOpcode::CreatePixmap),
            54 => Some(RequestOpcode::FreePixmap),
            55 => Some(RequestOpcode::CreateGC),
            56 => Some(RequestOpcode::ChangeGC),
            60 => Some(RequestOpcode::FreeGC),
            61 => Some(RequestOpcode::ClearArea),
            62 => Some(RequestOpcode::CopyArea),
            64 => Some(RequestOpcode::PolyPoint),
            65 => Some(RequestOpcode::PolyLine),
            66 => Some(RequestOpcode::PolySegment),
            67 => Some(RequestOpcode::PolyRectangle),
            68 => Some(RequestOpcode::PolyArc),
            69 => Some(RequestOpcode::FillPoly),
            70 => Some(RequestOpcode::PolyFillRectangle),
            71 => Some(RequestOpcode::PolyFillArc),
            72 => Some(RequestOpcode::PutImage),
            73 => Some(RequestOpcode::GetImage),
            74 => Some(RequestOpcode::PolyText8),
            76 => Some(RequestOpcode::ImageText8),
            85 => Some(RequestOpcode::AllocNamedColor),
            94 => Some(RequestOpcode::CreateGlyphCursor),
            98 => Some(RequestOpcode::QueryExtension),
            99 => Some(RequestOpcode::ListExtensions),
            104 => Some(RequestOpcode::Bell),
            127 => Some(RequestOpcode::NoOperation),
            _ => None,
        }
    }

    /// The opcode's number on the wire.
    pub open spec fn spec_code(self) -> u8 {
        match self {
            RequestOpcode::CreateWindow => 1,
            RequestOpcode::ChangeWindowAttributes => 2,
            RequestOpcode::GetWindowAttributes => 3,
            RequestOpcode::DestroyWindow => 4,
            RequestOpcode::DestroySubwindows => 5,
            RequestOpcode::ChangeSaveSet => 6,
            RequestOpcode::ReparentWindow => 7,
            RequestOpcode::MapWindow => 8,
            RequestOpcode::MapSubwindows => 9,
            RequestOpcode::UnmapWindow => 10,
            RequestOpcode::UnmapSubwindows => 11,
            RequestOpcode::ConfigureWindow => 12,
            RequestOpcode::CirculateWindow => 13,
            RequestOpcode::GetGeometry => 14,
            RequestOpcode::QueryTree => 15,
            RequestOpcode::InternAtom => 16,
            RequestOpcode::GetAtomName => 17,
            RequestOpcode::ChangeProperty => 18,
            RequestOpcode::DeleteProperty => 19,
            RequestOpcode::GetProperty => 20,
            RequestOpcode::ListProperties => 21,
            RequestOpcode::SetSelectionOwner => 22,
            RequestOpcode::GetSelectionOwner => 23,
            RequestOpcode::ConvertSelection => 24,
            RequestOpcode::SendEvent => 25,
            RequestOpcode::GrabPointer => 26,
            RequestOpcode::UngrabPointer => 27,
            RequestOpcode::GrabButton => 28,
            RequestOpcode::UngrabButton => 29,
            RequestOpcode::ChangeActivePointerGrab => 30,
            RequestOpcode::GrabKeyboard => 31,
            RequestOpcode::UngrabKeyboard => 32,
            RequestOpcode::GrabKey => 33,
            RequestOpcode::UngrabKey => 34,
            RequestOpcode::AllowEvents => 35,
            RequestOpcode::GrabServer => 36,
            RequestOpcode::UngrabServer => 37,
            RequestOpcode::QueryPointer => 38,
            RequestOpcode::GetMotionEvents => 39,
            RequestOpcode::TranslateCoordinates => 40,
            RequestOpcode::WarpPointer => 41,
            RequestOpcode::SetInputFocus => 42,
            RequestOpcode::GetInputFocus => 43,
            RequestOpcode::QueryKeymap => 44,
            RequestOpcode::OpenFont => 45,
            RequestOpcode::CloseFont => 46,
            RequestOpcode::QueryFont => 47,
            RequestOpcode::QueryTextExtents => 48,
            RequestOpcode::ListFonts => 49,
            RequestOpcode::ListFontsWithInfo => 50,
            RequestOpcode::SetFontPath => 51,
            RequestOpcode::GetFontPath => 52,
            RequestOpcode::CreatePixmap => 53,
            RequestOpcode::FreePixmap => 54,
            RequestOpcode::CreateGC => 55,
            RequestOpcode::ChangeGC => 56,
            RequestOpcode::CopyGC => 57,
            RequestOpcode::SetDashes => 58,
            RequestOpcode::SetClipRectangles => 59,
            RequestOpcode::FreeGC => 60,
            RequestOpcode::ClearArea => 61,
            RequestOpcode::CopyArea => 62,
            RequestOpcode::CopyPlane => 63,
            RequestOpcode::PolyPoint => 64,
            RequestOpcode::PolyLine => 65,
            RequestOpcode::PolySegment => 66,
            RequestOpcode::PolyRectangle => 67,
            RequestOpcode::PolyArc => 68,
            RequestOpcode::FillPoly => 69,
            RequestOpcode::PolyFillRectangle => 70,
            RequestOpcode::PolyFillArc => 71,
            RequestOpcode::PutImage => 72,
            RequestOpcode::GetImage => 73,
            RequestOpcode::PolyText8 => 74,
            RequestOpcode::PolyText16 => 75,
            RequestOpcode::ImageText8 => 76,
            RequestOpcode::ImageText16 => 77,
            RequestOpcode::CreateColormap => 78,
            RequestOpcode::FreeColormap => 79,
            RequestOpcode::CopyColormapAndFree => 80,
            RequestOpcode::InstallColormap => 81,
            RequestOpcode::UninstallColormap => 82,
            RequestOpcode::ListInstalledColormaps => 83,
            RequestOpcode::AllocColor => 84,
            RequestOpcode::AllocNamedColor => 85,
            RequestOpcode::AllocColorCells => 86,
            RequestOpcode::AllocColorPlanes => 87,
            RequestOpcode::FreeColors => 88,
            RequestOpcode::StoreColors => 89,
            RequestOpcode::StoreNamedColor => 90,
            RequestOpcode::QueryColors => 91,
            RequestOpcode::LookupColor => 92,
            RequestOpcode::CreateCursor => 93,
            RequestOpcode::CreateGlyphCursor => 94,
            RequestOpcode::FreeCursor => 95,
            RequestOpcode::RecolorCursor => 96,
            RequestOpcode::QueryBestSize => 97,
            RequestOpcode::QueryExtension => 98,
            RequestOpcode::ListExtensions => 99,
            RequestOpcode::ChangeKeyboardMapping => 100,
            RequestOpcode::GetKeyboardMapping => 101,
            RequestOpcode::ChangeKeyboardControl => 102,
            RequestOpcode::GetKeyboardControl => 103,
            RequestOpcode::Bell => 104,
            RequestOpcode::ChangePointerControl => 105,
            RequestOpcode::GetPointerControl => 106,
            RequestOpcode::SetScreenSaver => 107,
            RequestOpcode::GetScreenSaver => 108,
            RequestOpcode::ChangeHosts => 109,
            RequestOpcode::ListHosts => 110,
            RequestOpcode::SetAccessControl => 111,
            RequestOpcode::SetCloseDownMode => 112,
            RequestOpcode::KillClient => 113,
            RequestOpcode::RotateProperties => 114,
            RequestOpcode::ForceScreenSaver => 115,
            RequestOpcode::SetPointerMapping => 116,
            RequestOpcode::GetPointerMapping => 117,
            RequestOpcode::SetModifierMapping => 118,
            RequestOpcode::GetModifierMapping => 119,
            RequestOpcode::NoOperation => 127,
        }
    }

    /// The opcode's number on the wire (see `spec_code`).
    pub fn code(&self) -> (r: u8)
        ensures
            r == self.spec_code(),
    {
        match self {
            RequestOpcode::CreateWindow => 1,
            RequestOpcode::ChangeWindowAttributes => 2,
            RequestOpcode::GetWindowAttributes => 3,
            RequestOpcode::DestroyWindow => 4,
            RequestOpcode::DestroySubwindows => 5,
            RequestOpcode::ChangeSaveSet => 6,
            RequestOpcode::ReparentWindow => 7,
            RequestOpcode::MapWindow => 8,
            RequestOpcode::MapSubwindows => 9,
            RequestOpcode::UnmapWindow => 10,
            RequestOpcode::UnmapSubwindows => 11,
            RequestOpcode::ConfigureWindow => 12,
            RequestOpcode::CirculateWindow => 13,
            RequestOpcode::GetGeometry => 14,
            RequestOpcode::QueryTree => 15,
            RequestOpcode::InternAtom => 16,
            RequestOpcode::GetAtomName => 17,
            RequestOpcode::ChangeProperty => 18,
            RequestOpcode::DeleteProperty => 19,
            RequestOpcode::GetProperty => 20,
            RequestOpcode::ListProperties => 21,
            RequestOpcode::SetSelectionOwner => 22,
            RequestOpcode::GetSelectionOwner => 23,
            RequestOpcode::ConvertSelection => 24,
            RequestOpcode::SendEvent => 25,
            RequestOpcode::GrabPointer => 26,
            RequestOpcode::UngrabPointer => 27,
            RequestOpcode::GrabButton => 28,
            RequestOpcode::UngrabButton => 29,
            RequestOpcode::ChangeActivePointerGrab => 30,
            RequestOpcode::GrabKeyboard => 31,
            RequestOpcode::UngrabKeyboard => 32,
            RequestOpcode::GrabKey => 33,
            RequestOpcode::UngrabKey => 34,
            RequestOpcode::AllowEvents => 35,
            RequestOpcode::GrabServer => 36,
            RequestOpcode::UngrabServer => 37,
            RequestOpcode::QueryPointer => 38,
            RequestOpcode::GetMotionEvents => 39,
            RequestOpcode::TranslateCoordinates => 40,
            RequestOpcode::WarpPointer => 41,
            RequestOpcode::SetInputFocus => 42,
            RequestOpcode::GetInputFocus => 43,
            RequestOpcode::QueryKeymap => 44,
            RequestOpcode::OpenFont => 45,
            RequestOpcode::CloseFont => 46,
            RequestOpcode::QueryFont => 47,
            RequestOpcode::QueryTextExtents => 48,
            RequestOpcode::ListFonts => 49,
            RequestOpcode::ListFontsWithInfo => 50,
            RequestOpcode::SetFontPath => 51,
            RequestOpcode::GetFontPath => 52,
            RequestOpcode::CreatePixmap => 53,
            RequestOpcode::FreePixmap => 54,
            RequestOpcode::CreateGC => 55,
            RequestOpcode::ChangeGC => 56,
            RequestOpcode::CopyGC => 57,
            RequestOpcode::SetDashes => 58,
            RequestOpcode::SetClipRectangles => 59,
            RequestOpcode::FreeGC => 60,
            RequestOpcode::ClearArea => 61,
            RequestOpcode::CopyArea => 62,
            RequestOpcode::CopyPlane => 63,
            RequestOpcode::PolyPoint => 64,
            RequestOpcode::PolyLine => 65,
            RequestOpcode::PolySegment => 66,
            RequestOpcode::PolyRectangle => 67,
            RequestOpcode::PolyArc => 68,
            RequestOpcode::FillPoly => 69,
            RequestOpcode::PolyFillRectangle => 70,
            RequestOpcode::PolyFillArc => 71,
            RequestOpcode::PutImage => 72,
            RequestOpcode::GetImage => 73,
            RequestOpcode::PolyText8 => 74,
            RequestOpcode::PolyText16 => 75,
            RequestOpcode::ImageText8 => 76,
            RequestOpcode::ImageText16 => 77,
            RequestOpcode::CreateColormap => 78,
            RequestOpcode::FreeColormap => 79,
            RequestOpcode::CopyColormapAndFree => 80,
            RequestOpcode::InstallColormap => 81,
            RequestOpcode::UninstallColormap => 82,
            RequestOpcode::ListInstalledColormaps => 83,
            RequestOpcode::AllocColor => 84,
            RequestOpcode::AllocNamedColor => 85,
            RequestOpcode::AllocColorCells => 86,
            RequestOpcode::AllocColorPlanes => 87,
            RequestOpcode::FreeColors => 88,
            RequestOpcode::StoreColors => 89,
            RequestOpcode::StoreNamedColor => 90,
            RequestOpcode::QueryColors => 91,
            RequestOpcode::LookupColor => 92,
            RequestOpcode::CreateCursor => 93,
            RequestOpcode::CreateGlyphCursor => 94,
            RequestOpcode::FreeCursor => 95,
            RequestOpcode::RecolorCursor => 96,
            RequestOpcode::QueryBestSize => 97,
            RequestOpcode::QueryExtension => 98,
            RequestOpcode::ListExtensions => 99,
            RequestOpcode::ChangeKeyboardMapping => 100,
            RequestOpcode::GetKeyboardMapping => 101,
            RequestOpcode::ChangeKeyboardControl => 102,
            RequestOpcode::GetKeyboardControl => 103,
            RequestOpcode::Bell => 104,
            RequestOpcode::ChangePointerControl => 105,
            RequestOpcode::GetPointerControl => 106,
            RequestOpcode::SetScreenSaver => 107,
            RequestOpcode::GetScreenSaver => 108,
            RequestOpcode::ChangeHosts => 109,
            RequestOpcode::ListHosts => 110,
            RequestOpcode::SetAccessControl => 111,
            RequestOpcode::SetCloseDownMode => 112,
            RequestOpcode::KillClient => 113,
            RequestOpcode::RotateProperties => 114,
            RequestOpcode::ForceScreenSaver => 115,
            RequestOpcode::SetPointerMapping => 116,
            RequestOpcode::GetPointerMapping => 117,
            RequestOpcode::SetModifierMapping => 118,
            RequestOpcode::GetModifierMapping => 119,
            RequestOpcode::NoOperation => 127,
        }
    }

    /// The number of a recognized opcode reads back as that opcode, and its number.
    pub proof fn lemma_code_reads_back(n: u8)
        ensures
            Self::spec_from_u8(n) matches Some(op) ==> op.spec_code() == n,
    {
    }

    /// The name of the request, for the requests that have one here.
    pub open spec fn spec_name(self) -> Seq<char> {
        match self {
            RequestOpcode::CreateWindow => "CreateWindow"@,
            RequestOpcode::ChangeWindowAttributes => "ChangeWindowAttributes"@,
            RequestOpcode::GetWindowAttributes => "GetWindowAttributes"@,
            RequestOpcode::DestroyWindow => "DestroyWindow"@,
            RequestOpcode::MapWindow => "MapWindow"@,
            RequestOpcode::UnmapWindow => "UnmapWindow"@,
            RequestOpcode::ConfigureWindow => "ConfigureWindow"@,
            RequestOpcode::InternAtom => "InternAtom"@,
            RequestOpcode::GetAtomName => "GetAtomName"@,
            RequestOpcode::ChangeProperty => "ChangeProperty"@,
            RequestOpcode::GetProperty => "GetProperty"@,
            RequestOpcode::CreatePixmap => "CreatePixmap"@,
            RequestOpcode::FreePixmap => "FreePixmap"@,
            RequestOpcode::CreateGC => "CreateGC"@,
            RequestOpcode::ChangeGC => "ChangeGC"@,
            RequestOpcode::FreeGC => "FreeGC"@,
            RequestOpcode::PolyRectangle => "PolyRectangle"@,
            RequestOpcode::PolyFillRectangle => "PolyFillRectangle"@,
            RequestOpcode::CopyArea => "CopyArea"@,
            RequestOpcode::ImageText8 => "ImageText8"@,
            _ => "Unknown"@,
        }
    }

    pub fn as_str(&self) -> (r: &'static str)
        ensures
            r@ == self.spec_name(),
    {
        match self {
            RequestOpcode::CreateWindow => "CreateWindow",
            RequestOpcode::ChangeWindowAttributes => "ChangeWindowAttributes",
            RequestOpcode::GetWindowAttributes => "GetWindowAttributes",
            RequestOpcode::DestroyWindow => "DestroyWindow",
            RequestOpcode::MapWindow => "MapWindow",
            RequestOpcode::UnmapWindow => "UnmapWindow",
            RequestOpcode::ConfigureWindow => "ConfigureWindow",
            RequestOpcode::InternAtom => "InternAtom",
            RequestOpcode::GetAtomName => "GetAtomName",
            RequestOpcode::ChangeProperty => "ChangeProperty",
            RequestOpcode::GetProperty => "GetProperty",
            RequestOpcode::CreatePixmap => "CreatePixmap",
            RequestOpcode::FreePixmap => "FreePixmap",
            RequestOpcode::CreateGC => "CreateGC",
            RequestOpcode::ChangeGC => "ChangeGC",
            RequestOpcode::FreeGC => "FreeGC",
            RequestOpcode::PolyRectangle => "PolyRectangle",
            RequestOpcode::PolyFillRectangle => "PolyFillRectangle",
            RequestOpcode::CopyArea => "CopyArea",
            RequestOpcode::ImageText8 => "ImageText8",
            _ => "Unknown",
        }
    }
}

/// Request header (common to all requests)
#[derive(Debug, Clone, PartialEq, Eq, Structural)]
pub struct RequestHeader {
    pub opcode: u8,
    /// Request-specific detail byte
    pub detail: u8,
    /// Length in 4-byte units
    pub length: u16,
}

/// The header read from the first four bytes of `buffer` in `order`.
pub open spec fn header_in(order: ByteOrder, buffer: Seq<u8>) -> RequestHeader {
    RequestHeader { opcode: buffer[0], detail: buffer[1], length: u16_at(order, buffer, 2) }
}

impl RequestHeader {
    /// Reads the header from the first four bytes of `buffer`, with the length in `order`.
    pub fn parse_with_order(buffer: &[u8], order: ByteOrder) -> (r: Result<Self, X11Error>)
        ensures
            buffer@.len() < 4 ==> r == Err::<RequestHeader, X11Error>(
                x11_error(ErrorCode::Length, 0, 0, 0, 0),
            ),
            buffer@.len() >= 4 ==> r == Ok::<RequestHeader, X11Error>(header_in(order, buffer@)),
    {
        if buffer.len() < 4 {
            return Err(X11Error::bad_length(0, 0));
        }
        Ok(RequestHeader { opcode: buffer[0], detail: buffer[1], length: read_u16_at(order, buffer, 2) })
    }

    /// Reads the header from the first four bytes of `buffer`, with the length in the
    /// machine's native byte order.
    pub fn parse(buffer: &[u8]) -> (r: Result<Self, X11Error>)
        ensures
            buffer@.len() < 4 ==> r == Err::<RequestHeader, X11Error>(
                x11_error(ErrorCode::Length, 0, 0, 0, 0),
            ),
            buffer@.len() >= 4 ==> (r == Ok::<RequestHeader, X11Error>(
                header_in(ByteOrder::LSBFirst, buffer@),
            ) || r == Ok::<RequestHeader, X11Error>(header_in(ByteOrder::MSBFirst, buffer@))),
    {
        Self::parse_with_order(buffer, ByteOrder::native())
    }

    /// Total request size in bytes.
    pub fn size(&self) -> (r: usize)
        ensures
            r == self.length as int * 4,
    {
        (self.length as usize) * 4
    }
}

/// Helper to read values from a request buffer, in the machine's native byte order.
pub struct RequestReader<'a> {
    buffer: &'a [u8],
    offset: usize,
}

impl<'a> RequestReader<'a> {
    /// The bytes being read.
    pub closed spec fn spec_buffer(&self) -> Seq<u8> {
        self.buffer@
    }

    /// How many bytes have been consumed.
    pub closed spec fn spec_offset(&self) -> int {
        self.offset as int
    }

    /// How many bytes have been consumed is a count that fits a `usize`, whatever
    /// reader it is.
    pub proof fn lemma_offset_in_range(&self)
        ensures
            0 <= self.spec_offset() <= usize::MAX,
    {
    }

    /// Reads of `a` and then `b` bytes from offset `o` give adjacent parts of the
    /// buffer, which together are the `a + b` bytes from `o`.
    pub proof fn lemma_reads_adjacent(buf: Seq<u8>, o: int, a: int, b: int)
        requires
            0 <= o,
            0 <= a,
            0 <= b,
            o + a + b <= buf.len(),
        ensures
            buf.subrange(o, o + a) + buf.subrange(o + a, o + a + b) == buf.subrange(o, o + a + b),
    {
        assert(buf.subrange(o, o + a) + buf.subrange(o + a, o + a + b) =~= buf.subrange(o, o + a + b));
    }

    /// Two `read_bytes` calls in a row, the first from `first` giving `a` and leaving
    /// `second`, the second from `second` giving `b`, read adjacent parts of the
    /// buffer: together the bytes from the first offset on, as many as both read.
    pub proof fn lemma_read_bytes_adjacent(
        first: &RequestReader<'a>,
        second: &RequestReader<'a>,
        a: Seq<u8>,
        b: Seq<u8>,
    )
        requires
            second.spec_buffer() == first.spec_buffer(),
            second.spec_offset() == first.spec_offset() + a.len(),
            second.spec_offset() + b.len() <= first.spec_buffer().len(),
            a == first.spec_buffer().subrange(first.spec_offset(), first.spec_offset() + a.len()),
            b == second.spec_buffer().subrange(second.spec_offset(), second.spec_offset() + b.len()),
        ensures
            a + b == first.spec_buffer().subrange(
                first.spec_offset(),
                first.spec_offset() + a.len() + b.len(),
            ),
    {
        assert(a + b =~= first.spec_buffer().subrange(
            first.spec_offset(),
            first.spec_offset() + a.len() + b.len(),
        ));
    }

    pub fn new(buffer: &'a [u8]) -> (r: Self)
        ensures
            r.spec_buffer() == buffer@,
            r.spec_offset() == 0,
    {
        RequestReader { buffer, offset: 0 }
    }

    pub fn skip(&mut self, n: usize)
        requires
            old(self).spec_offset() + n <= usize::MAX,
        ensures
            final(self).spec_buffer() == old(self).spec_buffer(),
            final(self).spec_offset() == old(self).spec_offset() + n,
    {
        self.offset = self.offset + n;
    }

    pub fn read_u8(&mut self) -> (r: u8)
        requires
            old(self).spec_offset() + 1 <= old(self).spec_buffer().len(),
        ensures
            r == old(self).spec_buffer()[old(self).spec_offset()],
            final(self).spec_buffer() == old(self).spec_buffer(),
            final(self).spec_offset() == old(self).spec_offset() + 1,
    {
        let val = self.buffer[self.offset];
        self.offset = self.offset + 1;
        val
    }

    pub fn read_u16(&mut self) -> (r: u16)
        requires
            old(self).spec_offset() + 2 <= old(self).spec_buffer().len(),
        ensures
            r == u16_at(ByteOrder::LSBFirst, old(self).spec_buffer(), old(self).spec_offset())
                || r == u16_at(ByteOrder::MSBFirst, old(self).spec_buffer(), old(self).spec_offset()),
            final(self).spec_buffer() == old(self).spec_buffer(),
            final(self).spec_offset() == old(self).spec_offset() + 2,
    {
        let _total = self.buffer.len();
        let val = read_u16_at(ByteOrder::native(), self.buffer, self.offset);
        self.offset = self.offset + 2;
        val
    }

    pub fn read_u32(&mut self) -> (r: u32)
        requires
            old(self).spec_offset() + 4 <= old(self).spec_buffer().len(),
        ensures
            r == u32_at(ByteOrder::LSBFirst, old(self).spec_buffer(), old(self).spec_offset())
                || r == u32_at(ByteOrder::MSBFirst, old(self).spec_buffer(), old(self).spec_offset()),
            final(self).spec_buffer() == old(self).spec_buffer(),
            final(self).spec_offset() == old(self).spec_offset() + 4,
    {
        let _total = self.buffer.len();
        let val = read_u32_at(ByteOrder::native(), self.buffer, self.offset);
        self.offset = self.offset + 4;
        val
    }

    pub fn read_i16(&mut self) -> (r: i16)
        requires
            old(self).spec_offset() + 2 <= old(self).spec_buffer().len(),
        ensures
            r == u16_as_i16(u16_at(ByteOrder::LSBFirst, old(self).spec_buffer(), old(self).spec_offset()))
                || r == u16_as_i16(
                u16_at(ByteOrder::MSBFirst, old(self).spec_buffer(), old(self).spec_offset()),
            ),
            final(self).spec_buffer() == old(self).spec_buffer(),
            final(self).spec_offset() == old(self).spec_offset() + 2,
    {
        let _total = self.buffer.len();
        let val = u16_to_i16(read_u16_at(ByteOrder::native(), self.buffer, self.offset));
        self.offset = self.offset + 2;
        val
    }

    pub fn read_window(&mut self) -> (r: Window)
        requires
            old(self).spec_offset() + 4 <= old(self).spec_buffer().len(),
        ensures
            r == Window(XID(u32_at(ByteOrder::LSBFirst, old(self).spec_buffer(), old(self).spec_offset())))
                || r == Window(XID(u32_at(ByteOrder::MSBFirst, old(self).spec_buffer(), old(self).spec_offset()))),
            final(self).spec_buffer() == old(self).spec_buffer(),
            final(self).spec_offset() == old(self).spec_offset() + 4,
    {
        Window::new(self.read_u32())
    }

    pub fn read_pixmap(&mut self) -> (r: Pixmap)
        requires
            old(self).spec_offset() + 4 <= old(self).spec_buffer().len(),
        ensures
            r == Pixmap(XID(u32_at(ByteOrder::LSBFirst, old(self).spec_buffer(), old(self).spec_offset())))
                || r == Pixmap(XID(u32_at(ByteOrder::MSBFirst, old(self).spec_buffer(), old(self).spec_offset()))),
            final(self).spec_buffer() == old(self).spec_buffer(),
            final(self).spec_offset() == old(self).spec_offset() + 4,
    {
        Pixmap::new(self.read_u32())
    }

    pub fn read_drawable(&mut self) -> (r: Drawable)
        requires
            old(self).spec_offset() + 4 <= old(self).spec_buffer().len(),
        ensures
            r == Drawable::Window(Window(XID(u32_at(ByteOrder::LSBFirst, old(self).spec_buffer(), old(self).spec_offset()))))
                || r == Drawable::Window(Window(XID(u32_at(ByteOrder::MSBFirst, old(self).spec_buffer(), old(self).spec_offset())))),
            final(self).spec_buffer() == old(self).spec_buffer(),
            final(self).spec_offset() == old(self).spec_offset() + 4,
    {
        Drawable::from_id(self.read_u32())
    }

    pub fn read_gcontext(&mut self) -> (r: GContext)
        requires
            old(self).spec_offset() + 4 <= old(self).spec_buffer().len(),
        ensures
            r == GContext(XID(u32_at(ByteOrder::LSBFirst, old(self).spec_buffer(), old(self).spec_offset())))
                || r == GContext(XID(u32_at(ByteOrder::MSBFirst, old(self).spec_buffer(), old(self).spec_offset()))),
            final(self).spec_buffer() == old(self).spec_buffer(),
            final(self).spec_offset() == old(self).spec_offset() + 4,
    {
        GContext::new(self.read_u32())
    }

    pub fn read_atom(&mut self) -> (r: Atom)
        requires
            old(self).spec_offset() + 4 <= old(self).spec_buffer().len(),
        ensures
            r == Atom(u32_at(ByteOrder::LSBFirst, old(self).spec_buffer(), old(self).spec_offset()))
                || r == Atom(u32_at(ByteOrder::MSBFirst, old(self).spec_buffer(), old(self).spec_offset())),
            final(self).spec_buffer() == old(self).spec_buffer(),
            final(self).spec_offset() == old(self).spec_offset() + 4,
    {
        Atom::new(self.read_u32())
    }

    pub fn read_bytes(&mut self, len: usize) -> (r: &'a [u8])
        requires
            old(self).spec_offset() + len <= old(self).spec_buffer().len(),
        ensures
            r@ == old(self).spec_buffer().subrange(
                old(self).spec_offset(),
                old(self).spec_offset() + len,
            ),
            final(self).spec_buffer() == old(self).spec_buffer(),
            final(self).spec_offset() == old(self).spec_offset() + len,
            0 <= old(self).spec_offset() <= final(self).spec_offset() <= final(self).spec_buffer().len(),
    {
        let _total = self.buffer.len();
        let slice = &self.buffer[self.offset..self.offset + len];
        self.offset = self.offset + len;
        slice
    }

    pub fn remaining(&self) -> (r: &'a [u8])
        requires
            self.spec_offset() <= self.spec_buffer().len(),
        ensures
            r@ == self.spec_buffer().subrange(self.spec_offset(), self.spec_buffer().len() as int),
    {
        &self.buffer[self.offset..self.buffer.len()]
    }
}

} // verus!
