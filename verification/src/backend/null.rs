//! Null Backend - Minimal backend for testing
//!
//! This backend accepts all commands but doesn't perform any actual rendering.
//! It's useful for testing the protocol implementation without requiring a
//! real display system.
use vstd::prelude::*;
use super::traits::{
    Backend, BackendCursor, BackendDrawable, BackendError, BackendEvent, BackendGC, BackendResult,
    BackendWindow, ScreenInfo, VisualInfo, WindowConfig, WindowParams,
};
use crate::protocol::types::{Arc, Point, VisualID};
use crate::protocol::wire::{push_zeros, zeros};

verus! {

/// A font as a backend lists it, with its XLFD name and the parts of the name.
#[derive(Debug, Clone)]
pub struct BackendFontInfo {
    pub xlfd_name: String,
    pub family: String,
    pub weight: String,
    pub slant: String,
    pub pixel_size: u16,
    pub point_size: u16,
    pub char_width: u16,
    pub ascent: i16,
    pub descent: i16,
    pub registry: String,
    pub encoding: String,
}

/// A font's description as values.
pub struct FontView {
    pub xlfd_name: Seq<char>,
    pub family: Seq<char>,
    pub weight: Seq<char>,
    pub slant: Seq<char>,
    pub pixel_size: u16,
    pub point_size: u16,
    pub char_width: u16,
    pub ascent: i16,
    pub descent: i16,
    pub registry: Seq<char>,
    pub encoding: Seq<char>,
}

/// A font's description as values.
pub open spec fn font_view(f: BackendFontInfo) -> FontView {
    FontView {
        xlfd_name: f.xlfd_name@,
        family: f.family@,
        weight: f.weight@,
        slant: f.slant@,
        pixel_size: f.pixel_size,
        point_size: f.point_size,
        char_width: f.char_width,
        ascent: f.ascent,
        descent: f.descent,
        registry: f.registry@,
        encoding: f.encoding@,
    }
}

/// The fonts of the null backend: fixed medium and bold at 13 pixels, and
/// helvetica at 12 pixels.
pub open spec fn null_fonts() -> Seq<FontView> {
    seq![
        FontView {
            xlfd_name: "-misc-fixed-medium-r-normal--13-120-75-75-c-80-iso8859-1"@,
            family: "fixed"@,
            weight: "medium"@,
            slant: "r"@,
            pixel_size: 13,
            point_size: 120,
            char_width: 80,
            ascent: 10,
            descent: 3,
            registry: "iso8859"@,
            encoding: "1"@,
        },
        FontView {
            xlfd_name: "-misc-fixed-bold-r-normal--13-120-75-75-c-80-iso8859-1"@,
            family: "fixed"@,
            weight: "bold"@,
            slant: "r"@,
            pixel_size: 13,
            point_size: 120,
            char_width: 80,
            ascent: 10,
            descent: 3,
            registry: "iso8859"@,
            encoding: "1"@,
        },
        FontView {
            xlfd_name: "-*-helvetica-medium-r-normal--12-120-75-75-p-67-iso8859-1"@,
            family: "helvetica"@,
            weight: "medium"@,
            slant: "r"@,
            pixel_size: 12,
            point_size: 120,
            char_width: 0,
            ascent: 9,
            descent: 3,
            registry: "iso8859"@,
            encoding: "1"@,
        },
    ]
}

pub struct NullBackend {
    next_window_id: usize,
    next_pixmap_id: usize,
}

impl NullBackend {
    /// The handle the next window will get.
    pub closed spec fn spec_next_window_id(&self) -> usize {
        self.next_window_id
    }

    /// The handle the next pixmap will get.
    pub closed spec fn spec_next_pixmap_id(&self) -> usize {
        self.next_pixmap_id
    }

    pub fn new() -> (r: Self)
        ensures
            r.spec_next_window_id() == 1,
            r.spec_next_pixmap_id() == 1,
    {
        Self { next_window_id: 1, next_pixmap_id: 1 }
    }

    /// The fonts the null backend offers (see `null_fonts`).
    pub fn list_system_fonts(&mut self) -> (r: BackendResult<Vec<BackendFontInfo>>)
        ensures
            r matches Ok(fonts) && fonts@.map_values(|f: BackendFontInfo| font_view(f))
                == null_fonts(),
            *final(self) == *old(self),
    {
        // Return a minimal set of test fonts for the null backend
        let mut fonts: Vec<BackendFontInfo> = Vec::new();
        fonts.push(
            BackendFontInfo {
                xlfd_name: "-misc-fixed-medium-r-normal--13-120-75-75-c-80-iso8859-1".to_string(),
                family: "fixed".to_string(),
                weight: "medium".to_string(),
                slant: "r".to_string(),
                pixel_size: 13,
                point_size: 120,
                char_width: 80,
                ascent: 10,
                descent: 3,
                registry: "iso8859".to_string(),
                encoding: "1".to_string(),
            },
        );
        fonts.push(
            BackendFontInfo {
                xlfd_name: "-misc-fixed-bold-r-normal--13-120-75-75-c-80-iso8859-1".to_string(),
                family: "fixed".to_string(),
                weight: "bold".to_string(),
                slant: "r".to_string(),
                pixel_size: 13,
                point_size: 120,
                char_width: 80,
                ascent: 10,
                descent: 3,
                registry: "iso8859".to_string(),
                encoding: "1".to_string(),
            },
        );
        fonts.push(
            BackendFontInfo {
                xlfd_name: "-*-helvetica-medium-r-normal--12-120-75-75-p-67-iso8859-1".to_string(),
                family: "helvetica".to_string(),
                weight: "medium".to_string(),
                slant: "r".to_string(),
                pixel_size: 12,
                point_size: 120,
                // proportional
                char_width: 0,
                ascent: 9,
                descent: 3,
                registry: "iso8859".to_string(),
                encoding: "1".to_string(),
            },
        );
        assert(fonts@.map_values(|f: BackendFontInfo| font_view(f)) =~= null_fonts());
        Ok(fonts)
    }
}

impl Backend for NullBackend {
    fn init(&mut self) -> (r: BackendResult<()>)
        ensures
            r is Ok,
            *final(self) == *old(self),
    {
        Ok(())
    }

    /// A 1920x1080 screen of 508x285 mm, 24 bits deep, with visual 0x21.
    fn get_screen_info(&self) -> (r: BackendResult<ScreenInfo>)
        ensures
            r matches Ok(info) && info.width == 1920 && info.height == 1080 && info.width_mm == 508
                && info.height_mm == 285 && info.root_visual == VisualID(0x21) && info.root_depth
                == 24 && info.white_pixel == 0xFFFFFF && info.black_pixel == 0,
    {
        Ok(
            ScreenInfo {
                width: 1920,
                height: 1080,
                width_mm: 508,
                height_mm: 285,
                root_visual: VisualID::new(0x21),
                root_depth: 24,
                white_pixel: 0xFFFFFF,
                black_pixel: 0x000000,
            },
        )
    }

    /// One TrueColor visual, 0x21, with eight bits a channel.
    fn get_visuals(&self) -> (r: BackendResult<Vec<VisualInfo>>)
        ensures
            r matches Ok(v) && v@.len() == 1 && v@[0].visual_id == VisualID(0x21) && v@[0].class
                == 4 && v@[0].bits_per_rgb == 8 && v@[0].colormap_entries == 256 && v@[0].red_mask
                == 0xFF0000 && v@[0].green_mask == 0x00FF00 && v@[0].blue_mask == 0x0000FF,
    {
        let mut visuals: Vec<VisualInfo> = Vec::new();
        visuals.push(
            VisualInfo {
                visual_id: VisualID::new(0x21),
                // TrueColor
                class: 4,
                bits_per_rgb: 8,
                colormap_entries: 256,
                red_mask: 0xFF0000,
                green_mask: 0x00FF00,
                blue_mask: 0x0000FF,
            },
        );
        Ok(visuals)
    }

    /// Hands out the next window handle; fails only once every handle is used up.
    fn create_window(&mut self, _params: WindowParams) -> (r: BackendResult<BackendWindow>)
        ensures
            old(self).spec_next_window_id() < usize::MAX ==> r == Ok::<BackendWindow, BackendError>(
                BackendWindow(old(self).spec_next_window_id()),
            ) && final(self).spec_next_window_id() == old(self).spec_next_window_id() + 1,
            old(self).spec_next_window_id() == usize::MAX ==> r is Err && *final(self)
                == *old(self),
            final(self).spec_next_pixmap_id() == old(self).spec_next_pixmap_id(),
    {
        let id = self.next_window_id;
        match id.checked_add(1) {
            Some(next) => {
                self.next_window_id = next;
                Ok(BackendWindow(id))
            },
            None => Err(BackendError::new("window handles exhausted".to_string())),
        }
    }

    fn destroy_window(&mut self, _window: BackendWindow) -> (r: BackendResult<()>)
        ensures
            r is Ok,
            *final(self) == *old(self),
    {
        Ok(())
    }

    fn map_window(&mut self, _window: BackendWindow) -> (r: BackendResult<()>)
        ensures
            r is Ok,
            *final(self) == *old(self),
    {
        Ok(())
    }

    fn unmap_window(&mut self, _window: BackendWindow) -> (r: BackendResult<()>)
        ensures
            r is Ok,
            *final(self) == *old(self),
    {
        Ok(())
    }

    fn configure_window(&mut self, _window: BackendWindow, _config: WindowConfig) -> (r: BackendResult<()>)
        ensures
            r is Ok,
            *final(self) == *old(self),
    {
        Ok(())
    }

    fn raise_window(&mut self, _window: BackendWindow) -> (r: BackendResult<()>)
        ensures
            r is Ok,
            *final(self) == *old(self),
    {
        Ok(())
    }

    fn lower_window(&mut self, _window: BackendWindow) -> (r: BackendResult<()>)
        ensures
            r is Ok,
            *final(self) == *old(self),
    {
        Ok(())
    }

    fn set_window_title(&mut self, _window: BackendWindow, _title: &str) -> (r: BackendResult<()>)
        ensures
            r is Ok,
            *final(self) == *old(self),
    {
        Ok(())
    }

    fn clear_area(&mut self, _window: BackendWindow, _x: i16, _y: i16, _width: u16, _height: u16) -> (r: BackendResult<()>)
        ensures
            r is Ok,
            *final(self) == *old(self),
    {
        Ok(())
    }

    fn draw_rectangle(&mut self, _drawable: BackendDrawable, _gc: &BackendGC, _x: i16, _y: i16, _width: u16, _height: u16) -> (r: BackendResult<()>)
        ensures
            r is Ok,
            *final(self) == *old(self),
    {
        Ok(())
    }

    fn fill_rectangle(&mut self, _drawable: BackendDrawable, _gc: &BackendGC, _x: i16, _y: i16, _width: u16, _height: u16) -> (r: BackendResult<()>)
        ensures
            r is Ok,
            *final(self) == *old(self),
    {
        Ok(())
    }

    fn draw_line(&mut self, _drawable: BackendDrawable, _gc: &BackendGC, _x1: i16, _y1: i16, _x2: i16, _y2: i16) -> (r: BackendResult<()>)
        ensures
            r is Ok,
            *final(self) == *old(self),
    {
        Ok(())
    }

    fn draw_points(&mut self, _drawable: BackendDrawable, _gc: &BackendGC, _points: &[Point]) -> (r: BackendResult<()>)
        ensures
            r is Ok,
            *final(self) == *old(self),
    {
        Ok(())
    }

    fn draw_text(&mut self, _drawable: BackendDrawable, _gc: &BackendGC, _x: i16, _y: i16, _text: &str) -> (r: BackendResult<()>)
        ensures
            r is Ok,
            *final(self) == *old(self),
    {
        Ok(())
    }

    fn draw_arcs(&mut self, _drawable: BackendDrawable, _gc: &BackendGC, _arcs: &[Arc]) -> (r: BackendResult<()>)
        ensures
            r is Ok,
            *final(self) == *old(self),
    {
        Ok(())
    }

    fn fill_arcs(&mut self, _drawable: BackendDrawable, _gc: &BackendGC, _arcs: &[Arc]) -> (r: BackendResult<()>)
        ensures
            r is Ok,
            *final(self) == *old(self),
    {
        Ok(())
    }

    fn fill_polygon(&mut self, _drawable: BackendDrawable, _gc: &BackendGC, _points: &[Point]) -> (r: BackendResult<()>)
        ensures
            r is Ok,
            *final(self) == *old(self),
    {
        Ok(())
    }

    fn copy_area(&mut self, _src: BackendDrawable, _dst: BackendDrawable, _gc: &BackendGC, _src_x: i16, _src_y: i16, _width: u16, _height: u16, _dst_x: i16, _dst_y: i16) -> (r: BackendResult<()>)
        ensures
            r is Ok,
            *final(self) == *old(self),
    {
        Ok(())
    }

    /// Hands out the next pixmap handle; fails only once every handle is used up.
    fn create_pixmap(&mut self, _width: u16, _height: u16, _depth: u8) -> (r: BackendResult<usize>)
        ensures
            old(self).spec_next_pixmap_id() < usize::MAX ==> r == Ok::<usize, BackendError>(
                old(self).spec_next_pixmap_id(),
            ) && final(self).spec_next_pixmap_id() == old(self).spec_next_pixmap_id() + 1,
            old(self).spec_next_pixmap_id() == usize::MAX ==> r is Err && *final(self)
                == *old(self),
            final(self).spec_next_window_id() == old(self).spec_next_window_id(),
    {
        let id = self.next_pixmap_id;
        match id.checked_add(1) {
            Some(next) => {
                self.next_pixmap_id = next;
                Ok(id)
            },
            None => Err(BackendError::new("pixmap handles exhausted".to_string())),
        }
    }

    fn free_pixmap(&mut self, _pixmap: usize) -> (r: BackendResult<()>)
        ensures
            r is Ok,
            *final(self) == *old(self),
    {
        Ok(())
    }

    fn put_image(&mut self, _drawable: BackendDrawable, _gc: &BackendGC, _width: u16, _height: u16, _dst_x: i16, _dst_y: i16, _depth: u8, _format: u8, _data: &[u8]) -> (r: BackendResult<()>)
        ensures
            r is Ok,
            *final(self) == *old(self),
    {
        Ok(())
    }

    /// A blank (black) image of four bytes a pixel; fails only where its size does
    /// not fit in memory's address range.
    fn get_image(
        &mut self,
        _drawable: BackendDrawable,
        _x: i16,
        _y: i16,
        width: u16,
        height: u16,
        _plane_mask: u32,
        _format: u8,
    ) -> (r: BackendResult<Vec<u8>>)
        ensures
            width * height * 4 <= usize::MAX ==> (r matches Ok(data) && data@ == zeros(
                (width * height * 4) as nat,
            )),
            width * height * 4 > usize::MAX ==> r is Err,
            *final(self) == *old(self),
    {
        // RGBA
        let pixels = (width as usize).checked_mul(height as usize);
        let size = match pixels {
            Some(p) => p.checked_mul(4),
            None => None,
        };
        match size {
            Some(n) => {
                let mut data: Vec<u8> = Vec::new();
                push_zeros(&mut data, n);
                Ok(data)
            },
            None => {
                assert(width * height * 4 > usize::MAX) by (nonlinear_arith)
                    requires
                        pixels is None ==> width * height > usize::MAX,
                        pixels matches Some(p) ==> p == width * height && p * 4 > usize::MAX,
                ;
                Err(BackendError::new("image too large".to_string()))
            },
        }
    }

    /// There are never any events.
    fn poll_events(&mut self) -> (r: BackendResult<Vec<BackendEvent>>)
        ensures
            r matches Ok(events) && events@.len() == 0,
            *final(self) == *old(self),
    {
        Ok(Vec::new())
    }

    fn flush(&mut self) -> (r: BackendResult<()>)
        ensures
            r is Ok,
            *final(self) == *old(self),
    {
        Ok(())
    }

    /// There is never an event to wait for: the call fails at once, saying that no
    /// events are available.
    fn wait_for_event(&mut self) -> (r: BackendResult<BackendEvent>)
        ensures
            r matches Err(e) && e.message@ == "No events available"@,
            *final(self) == *old(self),
    {
        Err(BackendError::new("No events available".to_string()))
    }
}

} // verus!
