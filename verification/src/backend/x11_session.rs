//! What the X server backend keeps about its connection: the server's setup, the
//! server IDs of the windows and pixmaps it created, and the IDs it hands out.
//!
//! Each operation says which requests to send, in order; the program around the
//! library sends them, and reports back the windows and pixmaps the server made.
use vstd::prelude::*;
use std::collections::HashMap;
use crate::backend::traits::{BackendDrawable, BackendError, BackendGC, BackendWindow, WindowParams};
use crate::backend::traits::{ScreenInfo, VisualInfo};
use crate::backend::x11_requests::{
    arcs_request, arcs_request_bytes, copy_area_bytes, copy_area_request, create_gc_bytes,
    create_gc_request, create_pixmap_bytes, create_pixmap_request, create_window_bytes,
    create_window_request, fill_poly_bytes, fill_poly_request, free_pixmap_bytes,
    free_pixmap_request, get_image_bytes, get_image_request, image_text_bytes, image_text_request,
    map_window_bytes, map_window_request, open_font_bytes, open_font_request, poly_point_bytes,
    poly_point_request, put_image_bytes, put_image_request, rectangle_bytes, rectangle_request,
    restack_window_bytes, restack_window_request, segment_bytes, segment_request, set_title_bytes,
    set_title_request, text8,
};
use crate::protocol::types::{Arc, Point};
use crate::protocol::setup::{Depth, SetupSuccess, VisualType};
use vstd::utf8::encode_utf8;

verus! {

broadcast use vstd::std_specs::hash::group_hash_axioms;

/// The session as values.
pub struct SessionView {
    pub setup: Option<SetupSuccess>,
    pub windows: Map<usize, u32>,
    pub pixmaps: Map<usize, u32>,
    pub next_resource_id: usize,
    pub resource_id_base: u32,
    pub resource_id_mask: u32,
    pub default_font: Option<u32>,
}

/// The server resource ID made of the client's next number: the number, cut to 32
/// bits and to the bits of the mask the server granted, over the granted base.
pub open spec fn server_id(base: u32, mask: u32, next: usize) -> u32 {
    base | ((next as u32) & mask)
}

/// The server's ID for `drawable` in the session `v`.
pub open spec fn drawable_in(v: SessionView, drawable: BackendDrawable) -> Option<u32> {
    match drawable {
        BackendDrawable::Window(w) => if v.windows.contains_key(w.0) {
            Some(v.windows[w.0])
        } else {
            None
        },
        BackendDrawable::Pixmap(p) => if v.pixmaps.contains_key(p) {
            Some(v.pixmaps[p])
        } else {
            None
        },
    }
}

/// The server ID that the session hands out next.
pub open spec fn next_server_id(v: SessionView) -> u32 {
    server_id(v.resource_id_base, v.resource_id_mask, v.next_resource_id)
}

/// The session after it handed out one server ID.
pub open spec fn after_id(v: SessionView) -> SessionView {
    SessionView { next_resource_id: (v.next_resource_id + 1) as usize, ..v }
}

/// The bytes of each request of a list.
pub open spec fn requests_view(reqs: Seq<Vec<u8>>) -> Seq<Seq<u8>> {
    reqs.map_values(|r: Vec<u8>| r@)
}

/// The two requests of a drawing operation: a new GC for `drawable` with the
/// colors of `gc` (and the font, when one is given), then the drawing that uses it.
pub open spec fn with_new_gc(
    v: SessionView,
    drawable: u32,
    gc: BackendGC,
    font: Option<u32>,
    draw: Seq<u8>,
) -> Seq<Seq<u8>> {
    seq![create_gc_bytes(next_server_id(v), drawable, gc, font), draw]
}

/// A visual type as visual information.
pub open spec fn visual_info(v: VisualType) -> VisualInfo {
    VisualInfo {
        visual_id: v.visual_id,
        class: v.class,
        bits_per_rgb: v.bits_per_rgb_value,
        colormap_entries: v.colormap_entries,
        red_mask: v.red_mask,
        green_mask: v.green_mask,
        blue_mask: v.blue_mask,
    }
}

/// The visual types of the depths, depth after depth.
pub open spec fn depths_visuals(ds: Seq<Depth>) -> Seq<VisualInfo>
    decreases ds.len(),
{
    if ds.len() == 0 {
        Seq::empty()
    } else {
        depths_visuals(ds.drop_last()) + ds.last().visuals@.map_values(|v: VisualType| visual_info(v))
    }
}

/// The connection state of the X server backend.
pub struct X11Session {
    setup_info: Option<SetupSuccess>,
    /// Our window handles and the server's IDs for them
    window_map: HashMap<usize, u32>,
    /// Our pixmap handles and the server's IDs for them
    pixmap_map: HashMap<usize, u32>,
    /// For generating our own resource IDs
    next_resource_id: usize,
    resource_id_base: u32,
    resource_id_mask: u32,
    /// Default font for text rendering
    default_font_id: Option<u32>,
}

impl View for X11Session {
    type V = SessionView;

    closed spec fn view(&self) -> SessionView {
        SessionView {
            setup: self.setup_info,
            windows: self.window_map@,
            pixmaps: self.pixmap_map@,
            next_resource_id: self.next_resource_id,
            resource_id_base: self.resource_id_base,
            resource_id_mask: self.resource_id_mask,
            default_font: self.default_font_id,
        }
    }
}

/// The root window and root visual of the first screen of the setup.
pub open spec fn first_screen(setup: Option<SetupSuccess>) -> Option<(u32, u32)> {
    match setup {
        Some(s) => if s.roots@.len() > 0 {
            Some((s.roots@[0].root.0.0, s.roots@[0].root_visual.0))
        } else {
            None
        },
        None => None,
    }
}

impl X11Session {
    /// A session before the connection is set up: no windows or pixmaps, and our
    /// first resource number 1.
    pub fn new() -> (r: Self)
        ensures
            r@.setup is None,
            r@.windows == Map::<usize, u32>::empty(),
            r@.pixmaps == Map::<usize, u32>::empty(),
            r@.next_resource_id == 1,
            r@.resource_id_base == 0,
            r@.resource_id_mask == 0,
            r@.default_font is None,
    {
        X11Session {
            setup_info: None,
            window_map: HashMap::new(),
            pixmap_map: HashMap::new(),
            next_resource_id: 1,
            resource_id_base: 0,
            resource_id_mask: 0,
            default_font_id: None,
        }
    }

    /// Get the parsed setup info from the real X server
    pub fn setup_info(&self) -> (r: Option<&SetupSuccess>)
        ensures
            match r {
                Some(s) => self@.setup == Some(*s),
                None => self@.setup is None,
            },
    {
        self.setup_info.as_ref()
    }

    /// The number that the next resource of ours gets.
    pub fn next_resource_id(&self) -> (r: usize)
        ensures
            r == self@.next_resource_id,
    {
        self.next_resource_id
    }

    /// Takes the setup that the server sent: its resource ID base and mask become
    /// those of the IDs this session hands out.
    pub fn set_up(&mut self, setup: SetupSuccess)
        ensures
            final(self)@ == (SessionView {
                setup: Some(setup),
                resource_id_base: setup.resource_id_base,
                resource_id_mask: setup.resource_id_mask,
                ..old(self)@
            }),
    {
        self.resource_id_base = setup.resource_id_base;
        self.resource_id_mask = setup.resource_id_mask;
        self.setup_info = Some(setup);
    }

    /// Allocate a resource ID on the connected X server
    fn allocate_server_resource_id(&mut self) -> (id: u32)
        requires
            old(self).next_resource_id < usize::MAX,
        ensures
            id == server_id(
                old(self).resource_id_base,
                old(self).resource_id_mask,
                old(self).next_resource_id,
            ),
            final(self)@ == (SessionView {
                next_resource_id: (old(self).next_resource_id + 1) as usize,
                ..old(self)@
            }),
    {
        let id = self.resource_id_base | (self.next_resource_id as u32 & self.resource_id_mask);
        self.next_resource_id = self.next_resource_id + 1;
        id
    }

    /// The server's ID for `drawable`.
    pub fn drawable_id(&self, drawable: BackendDrawable) -> (r: Result<u32, BackendError>)
        ensures
            match drawable {
                BackendDrawable::Window(w) => match r {
                    Ok(id) => self@.windows.contains_key(w.0) && id == self@.windows[w.0],
                    Err(e) => !self@.windows.contains_key(w.0) && e.message@ == "Window not found"@,
                },
                BackendDrawable::Pixmap(p) => match r {
                    Ok(id) => self@.pixmaps.contains_key(p) && id == self@.pixmaps[p],
                    Err(e) => !self@.pixmaps.contains_key(p) && e.message@ == "Pixmap not found"@,
                },
            },
    {
        match drawable {
            BackendDrawable::Window(w) => match self.window_map.get(&w.0) {
                Some(id) => Ok(*id),
                None => Err(BackendError::new("Window not found".to_string())),
            },
            BackendDrawable::Pixmap(p) => match self.pixmap_map.get(&p) {
                Some(id) => Ok(*id),
                None => Err(BackendError::new("Pixmap not found".to_string())),
            },
        }
    }

    /// Opens the default font: the ID it gets, and the OpenFont request for the font
    /// "fixed", a common fallback font on X11 systems.
    pub fn open_default_font(&mut self) -> (r: (u32, Vec<u8>))
        requires
            old(self)@.next_resource_id < usize::MAX,
        ensures
            r.0 == server_id(
                old(self)@.resource_id_base,
                old(self)@.resource_id_mask,
                old(self)@.next_resource_id,
            ),
            r.1@ == open_font_bytes(r.0, encode_utf8("fixed"@)),
            final(self)@ == (SessionView {
                next_resource_id: (old(self)@.next_resource_id + 1) as usize,
                ..old(self)@
            }),
    {
        let font_id = self.allocate_server_resource_id();
        let name = "fixed";
        proof {
            reveal_strlit("fixed");
            assert(vstd::utf8::is_ascii_chars(name@));
            vstd::utf8::is_ascii_chars_encode_utf8(name@);
        }
        let req = open_font_request(font_id, name.as_bytes());
        (font_id, req)
    }

    /// Records that the server opened the default font.
    pub fn font_opened(&mut self, font_id: u32)
        ensures
            final(self)@ == (SessionView { default_font: Some(font_id), ..old(self)@ }),
    {
        self.default_font_id = Some(font_id);
    }

    /// Creates a window: our handle for it, the server's ID and the CreateWindow
    /// request, for a child of `params.parent` (of the root when there is none) with
    /// the root visual. Both IDs are used up even where the call fails.
    pub fn create_window(&mut self, params: &WindowParams) -> (r: Result<(BackendWindow, u32, Vec<u8>), BackendError>)
        requires
            old(self)@.next_resource_id < usize::MAX - 1,
            first_screen(old(self)@.setup) is Some || old(self)@.setup is None,
        ensures
            final(self)@ == (SessionView {
                next_resource_id: (old(self)@.next_resource_id + 2) as usize,
                ..old(self)@
            }),
            old(self)@.setup is None ==> r is Err,
            old(self)@.setup is Some ==> {
                let our_id = old(self)@.next_resource_id;
                let wid = server_id(
                    old(self)@.resource_id_base,
                    old(self)@.resource_id_mask,
                    (our_id + 1) as usize,
                );
                let (root, visual) = first_screen(old(self)@.setup)->0;
                let parent = match params.parent {
                    Some(p) => if old(self)@.windows.contains_key(p.0) {
                        old(self)@.windows[p.0]
                    } else {
                        wid
                    },
                    None => root,
                };
                r matches Ok((w, id, req)) && w == BackendWindow(our_id) && id == wid && req@
                    == create_window_bytes(wid, parent, visual, *params)
            },
    {
        // Allocate IDs
        let our_id = self.next_resource_id;
        self.next_resource_id = self.next_resource_id + 1;
        let server_wid = self.allocate_server_resource_id();

        let (root, visual) = match &self.setup_info {
            Some(setup) => (setup.roots[0].root.id().get(), setup.roots[0].root_visual.get()),
            None => {
                return Err(BackendError::new("Not initialized".to_string()));
            },
        };
        // Get parent window ID (root is from setup)
        let parent_id = match params.parent {
            Some(parent) => match self.window_map.get(&parent.0) {
                Some(id) => *id,
                None => server_wid,
            },
            None => root,
        };
        let req = create_window_request(server_wid, parent_id, visual, params);
        Ok((BackendWindow(our_id), server_wid, req))
    }

    /// Records that the server created the window `window` under `server_id`.
    pub fn window_created(&mut self, window: BackendWindow, server_wid: u32)
        ensures
            final(self)@ == (SessionView {
                windows: old(self)@.windows.insert(window.0, server_wid),
                ..old(self)@
            }),
    {
        self.window_map.insert(window.0, server_wid);
    }

    /// The server's ID for the window `window`.
    fn window_id(&self, window: BackendWindow) -> (r: Result<u32, BackendError>)
        ensures
            match r {
                Ok(id) => self@.windows.contains_key(window.0) && id == self@.windows[window.0],
                Err(e) => !self@.windows.contains_key(window.0) && e.message@ == "Window not found"@,
            },
    {
        self.drawable_id(BackendDrawable::Window(window))
    }

    /// The MapWindow request that shows `window`.
    pub fn map_window(&self, window: BackendWindow) -> (r: Result<Vec<u8>, BackendError>)
        ensures
            self@.windows.contains_key(window.0) ==> (r matches Ok(req) && req@ == map_window_bytes(
                self@.windows[window.0],
            )),
            !self@.windows.contains_key(window.0) ==> (r matches Err(e) && e.message@
                == "Window not found"@),
    {
        let server_wid = self.window_id(window)?;
        Ok(map_window_request(server_wid))
    }

    /// The ConfigureWindow request that raises `window` to the top (stack mode Above).
    pub fn raise_window(&self, window: BackendWindow) -> (r: Result<Vec<u8>, BackendError>)
        ensures
            self@.windows.contains_key(window.0) ==> (r matches Ok(req) && req@
                == restack_window_bytes(self@.windows[window.0], 0)),
            !self@.windows.contains_key(window.0) ==> (r matches Err(e) && e.message@
                == "Window not found"@),
    {
        let server_wid = self.window_id(window)?;
        Ok(restack_window_request(server_wid, 0))
    }

    /// The ConfigureWindow request that lowers `window` to the bottom (stack mode
    /// Below).
    pub fn lower_window(&self, window: BackendWindow) -> (r: Result<Vec<u8>, BackendError>)
        ensures
            self@.windows.contains_key(window.0) ==> (r matches Ok(req) && req@
                == restack_window_bytes(self@.windows[window.0], 1)),
            !self@.windows.contains_key(window.0) ==> (r matches Err(e) && e.message@
                == "Window not found"@),
    {
        let server_wid = self.window_id(window)?;
        Ok(restack_window_request(server_wid, 1))
    }
    /// A new GC on the server for `drawable`, with the next server ID.
    fn new_gc(&mut self, drawable: u32, gc: &BackendGC, font: Option<u32>) -> (r: (u32, Vec<u8>))
        requires
            old(self)@.next_resource_id < usize::MAX,
        ensures
            r.0 == next_server_id(old(self)@),
            r.1@ == create_gc_bytes(r.0, drawable, *gc, font),
            final(self)@ == after_id(old(self)@),
    {
        let gc_id = self.allocate_server_resource_id();
        (gc_id, create_gc_request(gc_id, drawable, gc, font))
    }

    /// The requests that draw (opcode 67) or fill (opcode 70) a rectangle.
    fn rectangle(
        &mut self,
        opcode: u8,
        drawable: BackendDrawable,
        gc: &BackendGC,
        x: i16,
        y: i16,
        width: u16,
        height: u16,
    ) -> (r: Result<Vec<Vec<u8>>, BackendError>)
        requires
            old(self)@.next_resource_id < usize::MAX,
        ensures
            match drawable_in(old(self)@, drawable) {
                Some(d) => final(self)@ == after_id(old(self)@) && (r matches Ok(reqs)
                    && requests_view(reqs@) == with_new_gc(
                    old(self)@,
                    d,
                    *gc,
                    None,
                    rectangle_bytes(opcode, d, next_server_id(old(self)@), x, y, width, height),
                )),
                None => final(self)@ == old(self)@ && r is Err,
            },
    {
        let d = self.drawable_id(drawable)?;
        let (gc_id, gc_req) = self.new_gc(d, gc, None);
        let mut reqs: Vec<Vec<u8>> = Vec::new();
        reqs.push(gc_req);
        reqs.push(rectangle_request(opcode, d, gc_id, x, y, width, height));
        assert(requests_view(reqs@) =~= with_new_gc(
            old(self)@,
            d,
            *gc,
            None,
            rectangle_bytes(opcode, d, gc_id, x, y, width, height),
        ));
        Ok(reqs)
    }

    /// The requests that draw a rectangle outline: a GC, then PolyRectangle.
    pub fn draw_rectangle(
        &mut self,
        drawable: BackendDrawable,
        gc: &BackendGC,
        x: i16,
        y: i16,
        width: u16,
        height: u16,
    ) -> (r: Result<Vec<Vec<u8>>, BackendError>)
        requires
            old(self)@.next_resource_id < usize::MAX,
        ensures
            match drawable_in(old(self)@, drawable) {
                Some(d) => final(self)@ == after_id(old(self)@) && (r matches Ok(reqs)
                    && requests_view(reqs@) == with_new_gc(
                    old(self)@,
                    d,
                    *gc,
                    None,
                    rectangle_bytes(67, d, next_server_id(old(self)@), x, y, width, height),
                )),
                None => final(self)@ == old(self)@ && r is Err,
            },
    {
        self.rectangle(67, drawable, gc, x, y, width, height)
    }

    /// The requests that fill a rectangle: a GC, then PolyFillRectangle.
    pub fn fill_rectangle(
        &mut self,
        drawable: BackendDrawable,
        gc: &BackendGC,
        x: i16,
        y: i16,
        width: u16,
        height: u16,
    ) -> (r: Result<Vec<Vec<u8>>, BackendError>)
        requires
            old(self)@.next_resource_id < usize::MAX,
        ensures
            match drawable_in(old(self)@, drawable) {
                Some(d) => final(self)@ == after_id(old(self)@) && (r matches Ok(reqs)
                    && requests_view(reqs@) == with_new_gc(
                    old(self)@,
                    d,
                    *gc,
                    None,
                    rectangle_bytes(70, d, next_server_id(old(self)@), x, y, width, height),
                )),
                None => final(self)@ == old(self)@ && r is Err,
            },
    {
        self.rectangle(70, drawable, gc, x, y, width, height)
    }

    /// The requests that draw a line: a GC, then PolySegment.
    pub fn draw_line(
        &mut self,
        drawable: BackendDrawable,
        gc: &BackendGC,
        x1: i16,
        y1: i16,
        x2: i16,
        y2: i16,
    ) -> (r: Result<Vec<Vec<u8>>, BackendError>)
        requires
            old(self)@.next_resource_id < usize::MAX,
        ensures
            match drawable_in(old(self)@, drawable) {
                Some(d) => final(self)@ == after_id(old(self)@) && (r matches Ok(reqs)
                    && requests_view(reqs@) == with_new_gc(
                    old(self)@,
                    d,
                    *gc,
                    None,
                    segment_bytes(d, next_server_id(old(self)@), x1, y1, x2, y2),
                )),
                None => final(self)@ == old(self)@ && r is Err,
            },
    {
        let d = self.drawable_id(drawable)?;
        let (gc_id, gc_req) = self.new_gc(d, gc, None);
        let mut reqs: Vec<Vec<u8>> = Vec::new();
        reqs.push(gc_req);
        reqs.push(segment_request(d, gc_id, x1, y1, x2, y2));
        assert(requests_view(reqs@) =~= with_new_gc(
            old(self)@,
            d,
            *gc,
            None,
            segment_bytes(d, gc_id, x1, y1, x2, y2),
        ));
        Ok(reqs)
    }

    /// The requests that draw points: none for no points, else a GC, then PolyPoint.
    pub fn draw_points(&mut self, drawable: BackendDrawable, gc: &BackendGC, points: &[Point]) -> (r:
        Result<Vec<Vec<u8>>, BackendError>)
        requires
            old(self)@.next_resource_id < usize::MAX,
            3 + (points@.len() as u16) <= u16::MAX,
        ensures
            points@.len() == 0 ==> final(self)@ == old(self)@ && (r matches Ok(reqs) && reqs@.len() == 0),
            points@.len() > 0 ==> match drawable_in(old(self)@, drawable) {
                Some(d) => final(self)@ == after_id(old(self)@) && (r matches Ok(reqs)
                    && requests_view(reqs@) == with_new_gc(
                    old(self)@,
                    d,
                    *gc,
                    None,
                    poly_point_bytes(d, next_server_id(old(self)@), points@),
                )),
                None => final(self)@ == old(self)@ && r is Err,
            },
    {
        if points.len() == 0 {
            return Ok(Vec::new());
        }
        let d = self.drawable_id(drawable)?;
        let (gc_id, gc_req) = self.new_gc(d, gc, None);
        let mut reqs: Vec<Vec<u8>> = Vec::new();
        reqs.push(gc_req);
        reqs.push(poly_point_request(d, gc_id, points));
        assert(requests_view(reqs@) =~= with_new_gc(
            old(self)@,
            d,
            *gc,
            None,
            poly_point_bytes(d, gc_id, points@),
        ));
        Ok(reqs)
    }

    /// The requests that fill a convex polygon: none for no points, else a GC, then
    /// FillPoly.
    pub fn fill_polygon(&mut self, drawable: BackendDrawable, gc: &BackendGC, points: &[Point]) -> (r:
        Result<Vec<Vec<u8>>, BackendError>)
        requires
            old(self)@.next_resource_id < usize::MAX,
            4 + (points@.len() as u16) <= u16::MAX,
        ensures
            points@.len() == 0 ==> final(self)@ == old(self)@ && (r matches Ok(reqs) && reqs@.len() == 0),
            points@.len() > 0 ==> match drawable_in(old(self)@, drawable) {
                Some(d) => final(self)@ == after_id(old(self)@) && (r matches Ok(reqs)
                    && requests_view(reqs@) == with_new_gc(
                    old(self)@,
                    d,
                    *gc,
                    None,
                    fill_poly_bytes(d, next_server_id(old(self)@), points@),
                )),
                None => final(self)@ == old(self)@ && r is Err,
            },
    {
        if points.len() == 0 {
            return Ok(Vec::new());
        }
        let d = self.drawable_id(drawable)?;
        let (gc_id, gc_req) = self.new_gc(d, gc, None);
        let mut reqs: Vec<Vec<u8>> = Vec::new();
        reqs.push(gc_req);
        reqs.push(fill_poly_request(d, gc_id, points));
        assert(requests_view(reqs@) =~= with_new_gc(
            old(self)@,
            d,
            *gc,
            None,
            fill_poly_bytes(d, gc_id, points@),
        ));
        Ok(reqs)
    }

    /// The requests that draw (opcode 68) or fill (opcode 71) arcs: none for no
    /// arcs, else a GC, then the arcs.
    pub fn arcs(
        &mut self,
        opcode: u8,
        drawable: BackendDrawable,
        gc: &BackendGC,
        arcs: &[Arc],
    ) -> (r: Result<Vec<Vec<u8>>, BackendError>)
        requires
            old(self)@.next_resource_id < usize::MAX,
            arcs@.len() * 3 <= usize::MAX,
            3 + ((arcs@.len() * 3) as u16) <= u16::MAX,
        ensures
            arcs@.len() == 0 ==> final(self)@ == old(self)@ && (r matches Ok(reqs) && reqs@.len() == 0),
            arcs@.len() > 0 ==> match drawable_in(old(self)@, drawable) {
                Some(d) => final(self)@ == after_id(old(self)@) && (r matches Ok(reqs)
                    && requests_view(reqs@) == with_new_gc(
                    old(self)@,
                    d,
                    *gc,
                    None,
                    arcs_request_bytes(opcode, d, next_server_id(old(self)@), arcs@),
                )),
                None => final(self)@ == old(self)@ && r is Err,
            },
    {
        if arcs.len() == 0 {
            return Ok(Vec::new());
        }
        let d = self.drawable_id(drawable)?;
        let (gc_id, gc_req) = self.new_gc(d, gc, None);
        let mut reqs: Vec<Vec<u8>> = Vec::new();
        reqs.push(gc_req);
        reqs.push(arcs_request(opcode, d, gc_id, arcs));
        assert(requests_view(reqs@) =~= with_new_gc(
            old(self)@,
            d,
            *gc,
            None,
            arcs_request_bytes(opcode, d, gc_id, arcs@),
        ));
        Ok(reqs)
    }

    /// The requests that draw text with the default font: none when no font is open
    /// or the text is empty, else a GC with the font, then ImageText8.
    pub fn draw_text(&mut self, drawable: BackendDrawable, gc: &BackendGC, x: i16, y: i16, text: &str) -> (r:
        Result<Vec<Vec<u8>>, BackendError>)
        requires
            old(self)@.next_resource_id < usize::MAX,
        ensures
            (old(self)@.default_font is None || text@.len() == 0) ==> final(self)@ == old(self)@
                && (r matches Ok(reqs) && reqs@.len() == 0),
            (old(self)@.default_font is Some && text@.len() > 0) ==> match drawable_in(
                old(self)@,
                drawable,
            ) {
                Some(d) => final(self)@ == after_id(old(self)@) && (r matches Ok(reqs)
                    && requests_view(reqs@) == with_new_gc(
                    old(self)@,
                    d,
                    *gc,
                    old(self)@.default_font,
                    image_text_bytes(d, next_server_id(old(self)@), x, y, text8(text@)),
                )),
                None => final(self)@ == old(self)@ && r is Err,
            },
    {
        // Check if we have a font
        let font_id = match self.default_font_id {
            Some(id) => id,
            None => return Ok(Vec::new()),  // No font available, silently skip
        };
        if text.unicode_len() == 0 {
            return Ok(Vec::new());
        }
        let d = self.drawable_id(drawable)?;
        let (gc_id, gc_req) = self.new_gc(d, gc, Some(font_id));
        let mut reqs: Vec<Vec<u8>> = Vec::new();
        reqs.push(gc_req);
        reqs.push(image_text_request(d, gc_id, x, y, text));
        assert(requests_view(reqs@) =~= with_new_gc(
            old(self)@,
            d,
            *gc,
            Some(font_id),
            image_text_bytes(d, gc_id, x, y, text8(text@)),
        ));
        Ok(reqs)
    }
    /// The server's ID for `drawable` as the source or destination of a copy.
    fn copy_end(&self, drawable: BackendDrawable, source: bool) -> (r: Result<u32, BackendError>)
        ensures
            match drawable_in(self@, drawable) {
                Some(d) => r == Ok::<u32, BackendError>(d),
                None => r is Err,
            },
    {
        match drawable {
            BackendDrawable::Window(w) => match self.window_map.get(&w.0) {
                Some(id) => Ok(*id),
                None => Err(
                    BackendError::new(
                        if source {
                            "Source window not found".to_string()
                        } else {
                            "Destination window not found".to_string()
                        },
                    ),
                ),
            },
            BackendDrawable::Pixmap(p) => match self.pixmap_map.get(&p) {
                Some(id) => Ok(*id),
                None => Err(
                    BackendError::new(
                        if source {
                            "Source pixmap not found".to_string()
                        } else {
                            "Destination pixmap not found".to_string()
                        },
                    ),
                ),
            },
        }
    }

    /// The requests that copy an area: a GC for the destination, then CopyArea.
    pub fn copy_area(
        &mut self,
        src: BackendDrawable,
        dst: BackendDrawable,
        gc: &BackendGC,
        src_x: i16,
        src_y: i16,
        width: u16,
        height: u16,
        dst_x: i16,
        dst_y: i16,
    ) -> (r: Result<Vec<Vec<u8>>, BackendError>)
        requires
            old(self)@.next_resource_id < usize::MAX,
        ensures
            match (drawable_in(old(self)@, src), drawable_in(old(self)@, dst)) {
                (Some(s), Some(d)) => final(self)@ == after_id(old(self)@) && (r matches Ok(reqs)
                    && requests_view(reqs@) == with_new_gc(
                    old(self)@,
                    d,
                    *gc,
                    None,
                    copy_area_bytes(
                        s,
                        d,
                        next_server_id(old(self)@),
                        src_x,
                        src_y,
                        width,
                        height,
                        dst_x,
                        dst_y,
                    ),
                )),
                _ => final(self)@ == old(self)@ && r is Err,
            },
    {
        let server_src = self.copy_end(src, true)?;
        let server_dst = self.copy_end(dst, false)?;
        let (gc_id, gc_req) = self.new_gc(server_dst, gc, None);
        let mut reqs: Vec<Vec<u8>> = Vec::new();
        reqs.push(gc_req);
        reqs.push(
            copy_area_request(server_src, server_dst, gc_id, src_x, src_y, width, height, dst_x, dst_y),
        );
        assert(requests_view(reqs@) =~= with_new_gc(
            old(self)@,
            server_dst,
            *gc,
            None,
            copy_area_bytes(server_src, server_dst, gc_id, src_x, src_y, width, height, dst_x, dst_y),
        ));
        Ok(reqs)
    }

    /// Creates a pixmap: our handle for it, the server's ID and the CreatePixmap
    /// request on the root window's screen. Both IDs are used up even where the call
    /// fails.
    pub fn create_pixmap(&mut self, width: u16, height: u16, depth: u8) -> (r: Result<(usize, u32, Vec<u8>), BackendError>)
        requires
            old(self)@.next_resource_id < usize::MAX - 1,
            first_screen(old(self)@.setup) is Some || old(self)@.setup is None,
        ensures
            final(self)@ == (SessionView {
                next_resource_id: (old(self)@.next_resource_id + 2) as usize,
                ..old(self)@
            }),
            old(self)@.setup is None ==> r is Err,
            old(self)@.setup is Some ==> {
                let our_id = old(self)@.next_resource_id;
                let pid = server_id(
                    old(self)@.resource_id_base,
                    old(self)@.resource_id_mask,
                    (our_id + 1) as usize,
                );
                let (root, _) = first_screen(old(self)@.setup)->0;
                r matches Ok((p, id, req)) && p == our_id && id == pid && req@
                    == create_pixmap_bytes(pid, root, width, height, depth)
            },
    {
        // Allocate IDs
        let our_id = self.next_resource_id;
        self.next_resource_id = self.next_resource_id + 1;
        let server_pid = self.allocate_server_resource_id();

        // Get root window as the drawable reference
        let root_drawable = match &self.setup_info {
            Some(setup) => setup.roots[0].root.id().get(),
            None => {
                return Err(BackendError::new("Not initialized".to_string()));
            },
        };
        Ok((our_id, server_pid, create_pixmap_request(server_pid, root_drawable, width, height, depth)))
    }

    /// Records that the server created the pixmap `pixmap` under `server_pid`.
    pub fn pixmap_created(&mut self, pixmap: usize, server_pid: u32)
        ensures
            final(self)@ == (SessionView {
                pixmaps: old(self)@.pixmaps.insert(pixmap, server_pid),
                ..old(self)@
            }),
    {
        self.pixmap_map.insert(pixmap, server_pid);
    }

    /// Forgets the pixmap `pixmap` and gives the FreePixmap request for it.
    pub fn free_pixmap(&mut self, pixmap: usize) -> (r: Result<Vec<u8>, BackendError>)
        ensures
            old(self)@.pixmaps.contains_key(pixmap) ==> (r matches Ok(req) && req@ == free_pixmap_bytes(
                old(self)@.pixmaps[pixmap],
            )) && final(self)@ == (SessionView {
                pixmaps: old(self)@.pixmaps.remove(pixmap),
                ..old(self)@
            }),
            !old(self)@.pixmaps.contains_key(pixmap) ==> (r matches Err(e) && e.message@
                == "Pixmap not found"@) && final(self)@ == old(self)@,
    {
        match self.pixmap_map.remove(&pixmap) {
            Some(server_pid) => Ok(free_pixmap_request(server_pid)),
            None => {
                assert(self.pixmap_map@ =~= old(self).pixmap_map@);
                Err(BackendError::new("Pixmap not found".to_string()))
            },
        }
    }

    /// The requests that put an image: a GC, then PutImage.
    pub fn put_image(
        &mut self,
        drawable: BackendDrawable,
        gc: &BackendGC,
        width: u16,
        height: u16,
        dst_x: i16,
        dst_y: i16,
        depth: u8,
        format: u8,
        data: &[u8],
    ) -> (r: Result<Vec<Vec<u8>>, BackendError>)
        requires
            old(self)@.next_resource_id < usize::MAX,
            data@.len() + 27 <= usize::MAX,
        ensures
            match drawable_in(old(self)@, drawable) {
                Some(d) => final(self)@ == after_id(old(self)@) && (r matches Ok(reqs)
                    && requests_view(reqs@) == with_new_gc(
                    old(self)@,
                    d,
                    *gc,
                    None,
                    put_image_bytes(
                        d,
                        next_server_id(old(self)@),
                        width,
                        height,
                        dst_x,
                        dst_y,
                        depth,
                        format,
                        data@,
                    ),
                )),
                None => final(self)@ == old(self)@ && r is Err,
            },
    {
        let d = self.drawable_id(drawable)?;
        let (gc_id, gc_req) = self.new_gc(d, gc, None);
        let mut reqs: Vec<Vec<u8>> = Vec::new();
        reqs.push(gc_req);
        reqs.push(put_image_request(d, gc_id, width, height, dst_x, dst_y, depth, format, data));
        assert(requests_view(reqs@) =~= with_new_gc(
            old(self)@,
            d,
            *gc,
            None,
            put_image_bytes(d, gc_id, width, height, dst_x, dst_y, depth, format, data@),
        ));
        Ok(reqs)
    }

    /// The GetImage request for a rectangle of `drawable`.
    pub fn get_image(
        &self,
        drawable: BackendDrawable,
        x: i16,
        y: i16,
        width: u16,
        height: u16,
        plane_mask: u32,
        format: u8,
    ) -> (r: Result<Vec<u8>, BackendError>)
        ensures
            match drawable_in(self@, drawable) {
                Some(d) => r matches Ok(req) && req@ == get_image_bytes(
                    d,
                    x,
                    y,
                    width,
                    height,
                    plane_mask,
                    format,
                ),
                None => r is Err,
            },
    {
        let d = self.drawable_id(drawable)?;
        Ok(get_image_request(d, x, y, width, height, plane_mask, format))
    }

    /// The ChangeProperty request that sets the title of `window`.
    pub fn set_window_title(&self, window: BackendWindow, title: &str) -> (r: Result<Vec<u8>, BackendError>)
        requires
            encode_utf8(title@).len() + 27 <= usize::MAX,
        ensures
            self@.windows.contains_key(window.0) ==> (r matches Ok(req) && req@ == set_title_bytes(
                self@.windows[window.0],
                encode_utf8(title@),
            )),
            !self@.windows.contains_key(window.0) ==> (r matches Err(e) && e.message@
                == "Window not found"@),
    {
        let server_wid = self.window_id(window)?;
        Ok(set_title_request(server_wid, title))
    }

    /// The first screen of the server, as screen information.
    pub fn get_screen_info(&self) -> (r: Result<ScreenInfo, BackendError>)
        requires
            first_screen(self@.setup) is Some || self@.setup is None,
        ensures
            match self@.setup {
                Some(setup) => r matches Ok(info) && {
                    let screen = setup.roots@[0];
                    &&& info.width == screen.width_in_pixels
                    &&& info.height == screen.height_in_pixels
                    &&& info.width_mm == screen.width_in_millimeters
                    &&& info.height_mm == screen.height_in_millimeters
                    &&& info.root_visual == screen.root_visual
                    &&& info.root_depth == screen.root_depth
                    &&& info.white_pixel == screen.white_pixel
                    &&& info.black_pixel == screen.black_pixel
                },
                None => r matches Err(e) && e.message@ == "Not initialized"@,
            },
    {
        let setup = match &self.setup_info {
            Some(s) => s,
            None => {
                return Err(BackendError::new("Not initialized".to_string()));
            },
        };
        let screen = &setup.roots[0];
        Ok(
            ScreenInfo {
                width: screen.width_in_pixels,
                height: screen.height_in_pixels,
                width_mm: screen.width_in_millimeters,
                height_mm: screen.height_in_millimeters,
                root_visual: screen.root_visual,
                root_depth: screen.root_depth,
                white_pixel: screen.white_pixel,
                black_pixel: screen.black_pixel,
            },
        )
    }
    /// The visual types of every depth of the first screen.
    pub fn get_visuals(&self) -> (r: Result<Vec<VisualInfo>, BackendError>)
        requires
            first_screen(self@.setup) is Some || self@.setup is None,
        ensures
            match self@.setup {
                Some(setup) => r matches Ok(v) && v@ == depths_visuals(
                    setup.roots@[0].allowed_depths@,
                ),
                None => r matches Err(e) && e.message@ == "Not initialized"@,
            },
    {
        let setup = match &self.setup_info {
            Some(s) => s,
            None => {
                return Err(BackendError::new("Not initialized".to_string()));
            },
        };
        let depths = &setup.roots[0].allowed_depths;
        let mut visuals: Vec<VisualInfo> = Vec::new();
        let mut i: usize = 0;
        while i < depths.len()
            invariant
                i <= depths@.len(),
                visuals@ == depths_visuals(depths@.take(i as int)),
            decreases depths@.len() - i,
        {
            let ghost start = visuals@;
            let vs = &depths[i].visuals;
            let mut j: usize = 0;
            while j < vs.len()
                invariant
                    j <= vs@.len(),
                    visuals@ == start + vs@.take(j as int).map_values(|v: VisualType| visual_info(v)),
                decreases vs@.len() - j,
            {
                let visual = &vs[j];
                visuals.push(
                    VisualInfo {
                        visual_id: visual.visual_id,
                        class: visual.class,
                        bits_per_rgb: visual.bits_per_rgb_value,
                        colormap_entries: visual.colormap_entries,
                        red_mask: visual.red_mask,
                        green_mask: visual.green_mask,
                        blue_mask: visual.blue_mask,
                    },
                );
                j = j + 1;
                assert(visuals@ =~= start + vs@.take(j as int).map_values(
                    |v: VisualType| visual_info(v),
                ));
            }
            assert(vs@.take(vs@.len() as int) =~= vs@);
            i = i + 1;
            assert(depths@.take(i as int).drop_last() =~= depths@.take(i - 1));
        }
        assert(depths@.take(depths@.len() as int) =~= depths@);
        Ok(visuals)
    }
}

} // verus!
