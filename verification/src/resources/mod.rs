//! Resource tracking for X11 clients.
//!
//! Tracks the resources that each client creates, so that they can be released
//! when the client disconnects.
use vstd::prelude::*;
use std::collections::{HashMap, HashSet};
use vstd::std_specs::hash::spec_hash_keys_iter;
use vstd::std_specs::iter::IteratorSpec;
use crate::protocol::types::{ByteOrder, Colormap, GContext, Pixmap, Window, XID};
use crate::protocol::errors::{x11_error, ErrorCode};
use crate::protocol::parser::{
    parse_error, parsed_as, request_in_bounds, CloseFontRequest, CreatePixmapRequest, CreateWindowRequest,
    DestroyWindowRequest, FreeGCRequest, FreePixmapRequest, Request,
};
use crate::protocol::wire::{
    lemma_u16_roundtrip, lemma_u32_roundtrip, push_u16, push_u32, u16_at, u16_bytes, u32_bytes,
};

verus! {

broadcast use vstd::std_specs::hash::group_hash_axioms;

/// The sets of resource IDs, per client, that a table of hash sets holds.
pub open spec fn set_views(m: Map<u32, HashSet<u32>>) -> Map<u32, Set<u32>> {
    m.map_values(|s: HashSet<u32>| s@)
}

/// The resources of client `c` in `m`; none when the client is not registered.
pub open spec fn set_of(m: Map<u32, Set<u32>>, c: u32) -> Set<u32> {
    if m.contains_key(c) {
        m[c]
    } else {
        Set::empty()
    }
}

/// `m` with `x` added to the resources of client `c`, if `c` is registered.
pub open spec fn add_to(m: Map<u32, Set<u32>>, c: u32, x: u32) -> Map<u32, Set<u32>> {
    if m.contains_key(c) {
        m.insert(c, m[c].insert(x))
    } else {
        m
    }
}

/// `m` with `x` removed from the resources of client `c`, if `c` is registered.
pub open spec fn remove_from(m: Map<u32, Set<u32>>, c: u32, x: u32) -> Map<u32, Set<u32>> {
    if m.contains_key(c) {
        m.insert(c, m[c].remove(x))
    } else {
        m
    }
}

/// The abstract state of a `ResourceTracker`: for each kind of resource, the IDs that
/// each registered client holds, and the next client ID to hand out.
#[verifier::ext_equal]
pub struct TrackerState {
    pub windows: Map<u32, Set<u32>>,
    pub pixmaps: Map<u32, Set<u32>>,
    pub gcs: Map<u32, Set<u32>>,
    pub fonts: Map<u32, Set<u32>>,
    pub cursors: Map<u32, Set<u32>>,
    pub colormaps: Map<u32, Set<u32>>,
    pub atoms: Map<u32, Set<u32>>,
    pub next_client_id: u32,
}

impl TrackerState {
    /// The registered clients.
    pub open spec fn clients(self) -> Set<u32> {
        self.windows.dom()
    }

    /// Every table holds exactly the registered clients, every registered client has
    /// an ID below the next one to be handed out, and every client's sets are finite.
    pub open spec fn wf(self) -> bool {
        &&& self.pixmaps.dom() == self.clients()
        &&& self.gcs.dom() == self.clients()
        &&& self.fonts.dom() == self.clients()
        &&& self.cursors.dom() == self.clients()
        &&& self.colormaps.dom() == self.clients()
        &&& self.atoms.dom() == self.clients()
        &&& forall|c: u32| #[trigger] self.clients().contains(c) ==> c < self.next_client_id
        &&& self.windows.dom().finite()
        &&& forall|c: u32| #[trigger] self.clients().contains(c) ==> {
            &&& self.windows[c].finite()
            &&& self.pixmaps[c].finite()
            &&& self.gcs[c].finite()
            &&& self.fonts[c].finite()
            &&& self.cursors[c].finite()
            &&& self.colormaps[c].finite()
        }
    }

    /// The state after client `c` is registered.
    pub open spec fn registered(self, c: u32) -> TrackerState {
        TrackerState {
            windows: self.windows.insert(c, Set::empty()),
            pixmaps: self.pixmaps.insert(c, Set::empty()),
            gcs: self.gcs.insert(c, Set::empty()),
            fonts: self.fonts.insert(c, Set::empty()),
            cursors: self.cursors.insert(c, Set::empty()),
            colormaps: self.colormaps.insert(c, Set::empty()),
            atoms: self.atoms.insert(c, Set::empty()),
            next_client_id: (c + 1) as u32,
        }
    }

    /// The state after client `c` is unregistered.
    pub open spec fn unregistered(self, c: u32) -> TrackerState {
        TrackerState {
            windows: self.windows.remove(c),
            pixmaps: self.pixmaps.remove(c),
            gcs: self.gcs.remove(c),
            fonts: self.fonts.remove(c),
            cursors: self.cursors.remove(c),
            colormaps: self.colormaps.remove(c),
            atoms: self.atoms.remove(c),
            next_client_id: self.next_client_id,
        }
    }

    /// The state after the request `req` of client `c` is tracked: creating a window,
    /// pixmap, GC, font or glyph cursor adds its ID to the client's set of that kind;
    /// destroying a window, pixmap, GC or font removes it; other requests, and requests
    /// of clients that are not registered, change nothing.
    pub open spec fn after_request(self, c: u32, req: Request) -> TrackerState {
        match req {
            Request::CreateWindow(r) => TrackerState { windows: add_to(self.windows, c, r.wid.0.0), ..self },
            Request::CreatePixmap(r) => TrackerState { pixmaps: add_to(self.pixmaps, c, r.pid.0.0), ..self },
            Request::CreateGC(r) => TrackerState { gcs: add_to(self.gcs, c, r.cid.0.0), ..self },
            Request::OpenFont(r) => TrackerState { fonts: add_to(self.fonts, c, r.fid), ..self },
            Request::CreateGlyphCursor(r) => TrackerState { cursors: add_to(self.cursors, c, r.cid), ..self },
            Request::DestroyWindow(r) => TrackerState { windows: remove_from(self.windows, c, r.window.0.0), ..self },
            Request::FreePixmap(r) => TrackerState { pixmaps: remove_from(self.pixmaps, c, r.pixmap.0.0), ..self },
            Request::FreeGC(r) => TrackerState { gcs: remove_from(self.gcs, c, r.gc.0.0), ..self },
            Request::CloseFont(r) => TrackerState { fonts: remove_from(self.fonts, c, r.font), ..self },
            _ => self,
        }
    }
}

/// Tracks all resources allocated by X11 clients
#[derive(Debug)]
pub struct ResourceTracker {
    /// Windows created by each client
    windows: HashMap<u32, HashSet<u32>>,
    /// Pixmaps created by each client
    pixmaps: HashMap<u32, HashSet<u32>>,
    /// Graphics contexts created by each client
    gcs: HashMap<u32, HashSet<u32>>,
    /// Fonts opened by each client
    fonts: HashMap<u32, HashSet<u32>>,
    /// Cursors created by each client
    cursors: HashMap<u32, HashSet<u32>>,
    /// Colormaps created by each client
    colormaps: HashMap<u32, HashSet<u32>>,
    /// Atoms created by each client
    atoms: HashMap<u32, HashSet<u32>>,
    /// Next client ID to assign
    next_client_id: u32,
}

impl View for ResourceTracker {
    type V = TrackerState;

    closed spec fn view(&self) -> TrackerState {
        TrackerState {
            windows: set_views(self.windows@),
            pixmaps: set_views(self.pixmaps@),
            gcs: set_views(self.gcs@),
            fonts: set_views(self.fonts@),
            cursors: set_views(self.cursors@),
            colormaps: set_views(self.colormaps@),
            atoms: set_views(self.atoms@),
            next_client_id: self.next_client_id,
        }
    }
}

/// The elements of `s`, each once, in the order in which the set yields them.
fn elements(s: &HashSet<u32>) -> (r: Vec<u32>)
    ensures
        r@.to_set() == s@,
        r@.no_duplicates(),
{
    let mut v: Vec<u32> = Vec::new();
    for x in it: s.iter()
        invariant
            it.seq() == spec_hash_keys_iter(s).remaining(),
            v@ == it.seq().take(it.index() as int).map_values(|p: &u32| *p),
    {
        v.push(*x);
        assert(v@ =~= it.seq().take(it.index() + 1).map_values(|p: &u32| *p));
    }
    proof {
        assert(v@ =~= spec_hash_keys_iter(s).remaining().unref());
    }
    v
}

/// Adds `x` to the set of client `c`, if `c` has one.
fn add_id(m: &mut HashMap<u32, HashSet<u32>>, c: u32, x: u32)
    ensures
        set_views(final(m)@) == add_to(set_views(old(m)@), c, x),
        final(m)@.dom() == old(m)@.dom(),
{
    match m.remove(&c) {
        Some(mut set) => {
            set.insert(x);
            m.insert(c, set);
            assert(set_views(m@) =~= add_to(set_views(old(m)@), c, x));
        },
        None => {
            assert(m@ == old(m)@);
        },
    }
}

/// Removes `x` from the set of client `c`, if `c` has one.
fn remove_id(m: &mut HashMap<u32, HashSet<u32>>, c: u32, x: u32)
    ensures
        set_views(final(m)@) == remove_from(set_views(old(m)@), c, x),
        final(m)@.dom() == old(m)@.dom(),
{
    match m.remove(&c) {
        Some(mut set) => {
            set.remove(&x);
            m.insert(c, set);
            assert(set_views(m@) =~= remove_from(set_views(old(m)@), c, x));
        },
        None => {
            assert(m@ == old(m)@);
        },
    }
}

/// Number of resources of client `c` in `m`; zero when the client is not registered.
fn count_of(m: &HashMap<u32, HashSet<u32>>, c: u32) -> (r: usize)
    requires
        set_of(set_views(m@), c).finite(),
    ensures
        r == set_of(set_views(m@), c).len(),
{
    match m.get(&c) {
        Some(s) => s.len(),
        None => 0,
    }
}

impl ResourceTracker {
    /// Whether the tracker's tables are consistent (see `TrackerState::wf`).
    pub open spec fn wf(&self) -> bool {
        self@.wf()
    }

    /// Create a new resource tracker
    pub fn new() -> (r: Self)
        ensures
            r.wf(),
            r@.clients() == Set::<u32>::empty(),
            r@.next_client_id == 1,
    {
        let r = ResourceTracker {
            windows: HashMap::new(),
            pixmaps: HashMap::new(),
            gcs: HashMap::new(),
            fonts: HashMap::new(),
            cursors: HashMap::new(),
            colormaps: HashMap::new(),
            atoms: HashMap::new(),
            next_client_id: 1,
        };
        assert(r@.windows =~= Map::empty());
        assert(r@.pixmaps =~= Map::empty());
        assert(r@.gcs =~= Map::empty());
        assert(r@.fonts =~= Map::empty());
        assert(r@.cursors =~= Map::empty());
        assert(r@.colormaps =~= Map::empty());
        assert(r@.atoms =~= Map::empty());
        r
    }

    /// Register a new client and return its ID
    pub fn register_client(&mut self) -> (client_id: u32)
        requires
            old(self).wf(),
            old(self)@.next_client_id < u32::MAX,
        ensures
            final(self).wf(),
            client_id == old(self)@.next_client_id,
            !old(self)@.clients().contains(client_id),
            final(self)@ == old(self)@.registered(client_id),
    {
        let client_id = self.next_client_id;
        self.next_client_id = self.next_client_id + 1;

        // Every kind of resource starts out empty for the new client
        self.windows.insert(client_id, HashSet::new());
        self.pixmaps.insert(client_id, HashSet::new());
        self.gcs.insert(client_id, HashSet::new());
        self.fonts.insert(client_id, HashSet::new());
        self.cursors.insert(client_id, HashSet::new());
        self.colormaps.insert(client_id, HashSet::new());
        self.atoms.insert(client_id, HashSet::new());

        assert(self@ =~= old(self)@.registered(client_id));
        client_id
    }

    /// Unregister a client (on disconnect), returning the requests that release its
    /// windows, pixmaps, GCs, fonts, cursors and colormaps, kind by kind in that order.
    pub fn unregister_client(&mut self, client_id: u32) -> (cleanup: Vec<CleanupRequest>)
        requires
            old(self).wf(),
        ensures
            final(self).wf(),
            final(self)@ == old(self)@.unregistered(client_id),
            exists|ws: Seq<u32>, ps: Seq<u32>, gs: Seq<u32>, fs: Seq<u32>, cs: Seq<u32>, ms: Seq<u32>|
                {
                    &&& enumerates(ws, set_of(old(self)@.windows, client_id))
                    &&& enumerates(ps, set_of(old(self)@.pixmaps, client_id))
                    &&& enumerates(gs, set_of(old(self)@.gcs, client_id))
                    &&& enumerates(fs, set_of(old(self)@.fonts, client_id))
                    &&& enumerates(cs, set_of(old(self)@.cursors, client_id))
                    &&& enumerates(ms, set_of(old(self)@.colormaps, client_id))
                    &&& cleanup@ == cleanup_sequence(ws, ps, gs, fs, cs, ms)
                },
    {
        let mut cleanup_requests: Vec<CleanupRequest> = Vec::new();
        let ghost old_state = self@;

        let ws = take_ids(&mut self.windows, client_id);
        push_cleanup(&mut cleanup_requests, &ws, CleanupKind::Window);
        let ps = take_ids(&mut self.pixmaps, client_id);
        push_cleanup(&mut cleanup_requests, &ps, CleanupKind::Pixmap);
        let gs = take_ids(&mut self.gcs, client_id);
        push_cleanup(&mut cleanup_requests, &gs, CleanupKind::GC);
        let fs = take_ids(&mut self.fonts, client_id);
        push_cleanup(&mut cleanup_requests, &fs, CleanupKind::Font);
        let cs = take_ids(&mut self.cursors, client_id);
        push_cleanup(&mut cleanup_requests, &cs, CleanupKind::Cursor);
        let ms = take_ids(&mut self.colormaps, client_id);
        push_cleanup(&mut cleanup_requests, &ms, CleanupKind::Colormap);

        self.atoms.remove(&client_id);

        proof {
            assert(self@ =~= old_state.unregistered(client_id));
            assert(cleanup_requests@ =~= cleanup_sequence(ws@, ps@, gs@, fs@, cs@, ms@));
        }
        cleanup_requests
    }

    /// Track resource creation and destruction from a request of client `client_id`.
    pub fn track_request(&mut self, client_id: u32, request: &Request)
        requires
            old(self).wf(),
        ensures
            final(self).wf(),
            final(self)@ == old(self)@.after_request(client_id, *request),
    {
        let ghost old_state = self@;
        match request {
            Request::CreateWindow(req) => {
                add_id(&mut self.windows, client_id, req.wid.id().get());
            },
            Request::CreatePixmap(req) => {
                add_id(&mut self.pixmaps, client_id, req.pid.id().get());
            },
            Request::CreateGC(req) => {
                add_id(&mut self.gcs, client_id, req.cid.id().get());
            },
            Request::OpenFont(req) => {
                add_id(&mut self.fonts, client_id, req.fid);
            },
            Request::CreateGlyphCursor(req) => {
                add_id(&mut self.cursors, client_id, req.cid);
            },
            Request::DestroyWindow(req) => {
                remove_id(&mut self.windows, client_id, req.window.id().get());
            },
            Request::FreePixmap(req) => {
                remove_id(&mut self.pixmaps, client_id, req.pixmap.id().get());
            },
            Request::FreeGC(req) => {
                remove_id(&mut self.gcs, client_id, req.gc.id().get());
            },
            Request::CloseFont(req) => {
                remove_id(&mut self.fonts, client_id, req.font);
            },
            // Atoms are global; interning one creates nothing that this client owns.
            _ => {},
        }
        assert(self@ =~= old_state.after_request(client_id, *request));
    }

    /// All windows owned by a client
    pub fn get_client_windows(&self, client_id: u32) -> (r: Option<&HashSet<u32>>)
        ensures
            match r {
                Some(s) => self@.windows.contains_key(client_id) && s@ == self@.windows[client_id],
                None => !self@.windows.contains_key(client_id),
            },
    {
        self.windows.get(&client_id)
    }

    /// All pixmaps owned by a client
    pub fn get_client_pixmaps(&self, client_id: u32) -> (r: Option<&HashSet<u32>>)
        ensures
            match r {
                Some(s) => self@.pixmaps.contains_key(client_id) && s@ == self@.pixmaps[client_id],
                None => !self@.pixmaps.contains_key(client_id),
            },
    {
        self.pixmaps.get(&client_id)
    }

    /// Whether a client owns a specific window
    pub fn client_owns_window(&self, client_id: u32, window: XID) -> (r: bool)
        ensures
            r == set_of(self@.windows, client_id).contains(window.0),
    {
        match self.windows.get(&client_id) {
            Some(windows) => windows.contains(&window.0),
            None => false,
        }
    }

    /// Resource counts for a client (for security limits)
    pub fn get_resource_counts(&self, client_id: u32) -> (r: ResourceCounts)
        requires
            self.wf(),
        ensures
            r == counts_of(self@, client_id),
    {
        ResourceCounts {
            windows: count_of(&self.windows, client_id),
            pixmaps: count_of(&self.pixmaps, client_id),
            gcs: count_of(&self.gcs, client_id),
            fonts: count_of(&self.fonts, client_id),
            cursors: count_of(&self.cursors, client_id),
            colormaps: count_of(&self.colormaps, client_id),
        }
    }
}

impl Default for ResourceTracker {
    /// A tracker with no clients whose first client ID is 0.
    fn default() -> (r: Self)
        ensures
            r.wf(),
            r@.clients() == Set::<u32>::empty(),
            r@.next_client_id == 0,
    {
        let r = ResourceTracker {
            windows: HashMap::new(),
            pixmaps: HashMap::new(),
            gcs: HashMap::new(),
            fonts: HashMap::new(),
            cursors: HashMap::new(),
            colormaps: HashMap::new(),
            atoms: HashMap::new(),
            next_client_id: 0,
        };
        assert(r@.windows =~= Map::empty());
        assert(r@.pixmaps =~= Map::empty());
        assert(r@.gcs =~= Map::empty());
        assert(r@.fonts =~= Map::empty());
        assert(r@.cursors =~= Map::empty());
        assert(r@.colormaps =~= Map::empty());
        assert(r@.atoms =~= Map::empty());
        r
    }
}

/// Removes the set of client `c` from `m`, returning its elements.
fn take_ids(m: &mut HashMap<u32, HashSet<u32>>, c: u32) -> (r: Vec<u32>)
    ensures
        set_views(final(m)@) == set_views(old(m)@).remove(c),
        final(m)@.dom() == old(m)@.dom().remove(c),
        enumerates(r@, set_of(set_views(old(m)@), c)),
{
    match m.remove(&c) {
        Some(set) => {
            let ids = elements(&set);
            assert(set_views(m@) =~= set_views(old(m)@).remove(c));
            ids
        },
        None => {
            assert(set_views(m@) =~= set_views(old(m)@).remove(c));
            assert(Seq::<u32>::empty().to_set() =~= Set::<u32>::empty());
            Vec::new()
        },
    }
}

/// Each ID once, and exactly the IDs of `s`.
pub open spec fn enumerates(ids: Seq<u32>, s: Set<u32>) -> bool {
    ids.no_duplicates() && ids.to_set() == s
}

/// Resource counts for a client
#[derive(Debug, Clone, Copy)]
pub struct ResourceCounts {
    pub windows: usize,
    pub pixmaps: usize,
    pub gcs: usize,
    pub fonts: usize,
    pub cursors: usize,
    pub colormaps: usize,
}

/// The number of resources of each kind that client `c` holds in `s`.
pub open spec fn counts_of(s: TrackerState, c: u32) -> ResourceCounts {
    ResourceCounts {
        windows: set_of(s.windows, c).len() as usize,
        pixmaps: set_of(s.pixmaps, c).len() as usize,
        gcs: set_of(s.gcs, c).len() as usize,
        fonts: set_of(s.fonts, c).len() as usize,
        cursors: set_of(s.cursors, c).len() as usize,
        colormaps: set_of(s.colormaps, c).len() as usize,
    }
}

/// Cleanup request to send to the backend when a client disconnects
#[derive(Debug, Clone, PartialEq, Eq, Structural)]
pub enum CleanupRequest {
    DestroyWindow(Window),
    FreePixmap(Pixmap),
    FreeGC(GContext),
    CloseFont(u32),
    FreeCursor(u32),
    FreeColormap(Colormap),
}

/// The kinds of resource that a disconnecting client leaves behind.
#[derive(Clone, Copy)]
enum CleanupKind {
    Window,
    Pixmap,
    GC,
    Font,
    Cursor,
    Colormap,
}

/// The request that releases resource `id` of kind `kind`.
spec fn cleanup_of(kind: CleanupKind, id: u32) -> CleanupRequest {
    match kind {
        CleanupKind::Window => CleanupRequest::DestroyWindow(Window(XID(id))),
        CleanupKind::Pixmap => CleanupRequest::FreePixmap(Pixmap(XID(id))),
        CleanupKind::GC => CleanupRequest::FreeGC(GContext(XID(id))),
        CleanupKind::Font => CleanupRequest::CloseFont(id),
        CleanupKind::Cursor => CleanupRequest::FreeCursor(id),
        CleanupKind::Colormap => CleanupRequest::FreeColormap(Colormap(XID(id))),
    }
}

/// The cleanup requests for the given windows, pixmaps, GCs, fonts, cursors and
/// colormaps, in that order.
pub open spec fn cleanup_sequence(
    ws: Seq<u32>,
    ps: Seq<u32>,
    gs: Seq<u32>,
    fs: Seq<u32>,
    cs: Seq<u32>,
    ms: Seq<u32>,
) -> Seq<CleanupRequest> {
    ws.map_values(|x: u32| CleanupRequest::DestroyWindow(Window(XID(x)))) + ps.map_values(
        |x: u32| CleanupRequest::FreePixmap(Pixmap(XID(x))),
    ) + gs.map_values(|x: u32| CleanupRequest::FreeGC(GContext(XID(x)))) + fs.map_values(
        |x: u32| CleanupRequest::CloseFont(x),
    ) + cs.map_values(|x: u32| CleanupRequest::FreeCursor(x)) + ms.map_values(
        |x: u32| CleanupRequest::FreeColormap(Colormap(XID(x))),
    )
}

/// Appends the cleanup request for each of `ids`.
fn push_cleanup(out: &mut Vec<CleanupRequest>, ids: &Vec<u32>, kind: CleanupKind)
    ensures
        final(out)@ == old(out)@ + ids@.map_values(|x: u32| cleanup_of(kind, x)),
{
    let mut i: usize = 0;
    while i < ids.len()
        invariant
            i <= ids@.len(),
            out@ =~= old(out)@ + ids@.take(i as int).map_values(|x: u32| cleanup_of(kind, x)),
        decreases ids@.len() - i,
    {
        let id = ids[i];
        let req = match kind {
            CleanupKind::Window => CleanupRequest::DestroyWindow(Window(XID(id))),
            CleanupKind::Pixmap => CleanupRequest::FreePixmap(Pixmap::new(id)),
            CleanupKind::GC => CleanupRequest::FreeGC(GContext::new(id)),
            CleanupKind::Font => CleanupRequest::CloseFont(id),
            CleanupKind::Cursor => CleanupRequest::FreeCursor(id),
            CleanupKind::Colormap => CleanupRequest::FreeColormap(Colormap::new(id)),
        };
        out.push(req);
        i = i + 1;
        assert(out@ =~= old(out)@ + ids@.take(i as int).map_values(|x: u32| cleanup_of(kind, x)));
    }
    assert(ids@.take(ids@.len() as int) =~= ids@);
}

impl CleanupRequest {
    /// The request's major opcode.
    pub open spec fn spec_opcode(self) -> u8 {
        match self {
            CleanupRequest::DestroyWindow(_) => 4,
            CleanupRequest::FreePixmap(_) => 54,
            CleanupRequest::FreeGC(_) => 60,
            CleanupRequest::CloseFont(_) => 46,
            CleanupRequest::FreeCursor(_) => 95,
            CleanupRequest::FreeColormap(_) => 79,
        }
    }

    /// The ID of the resource that the request releases.
    pub open spec fn spec_resource(self) -> u32 {
        match self {
            CleanupRequest::DestroyWindow(w) => w.0.0,
            CleanupRequest::FreePixmap(p) => p.0.0,
            CleanupRequest::FreeGC(g) => g.0.0,
            CleanupRequest::CloseFont(f) => f,
            CleanupRequest::FreeCursor(c) => c,
            CleanupRequest::FreeColormap(m) => m.0.0,
        }
    }

    /// The eight bytes of the request: opcode, an unused byte, the length 2, and the ID.
    pub open spec fn spec_bytes(self, order: ByteOrder) -> Seq<u8> {
        seq![self.spec_opcode(), 0u8] + u16_bytes(order, 2)
            + u32_bytes(order, self.spec_resource())
    }

    /// Encode the cleanup request as X11 protocol bytes
    pub fn encode(&self, byte_order: ByteOrder) -> (r: Vec<u8>)
        ensures
            r@ == self.spec_bytes(byte_order),
    {
        let (opcode, id): (u8, u32) = match self {
            CleanupRequest::DestroyWindow(window) => (4, window.id().0),
            CleanupRequest::FreePixmap(pixmap) => (54, pixmap.id().0),
            CleanupRequest::FreeGC(gc) => (60, gc.id().0),
            CleanupRequest::CloseFont(font) => (46, *font),
            CleanupRequest::FreeCursor(cursor) => (95, *cursor),
            CleanupRequest::FreeColormap(colormap) => (79, colormap.id().0),
        };
        let mut buf: Vec<u8> = Vec::new();
        buf.push(opcode);
        buf.push(0u8);
        push_u16(&mut buf, byte_order, 2);
        push_u32(&mut buf, byte_order, id);
        assert(buf@ =~= self.spec_bytes(byte_order));
        buf
    }
}

/// The request that a cleanup request's bytes stand for among those the parser
/// reads: none for cursors and colormaps, whose requests it does not handle.
pub open spec fn cleanup_as_request(cr: CleanupRequest) -> Option<Request> {
    match cr {
        CleanupRequest::DestroyWindow(w) => Some(Request::DestroyWindow(DestroyWindowRequest { window: w })),
        CleanupRequest::FreePixmap(p) => Some(Request::FreePixmap(FreePixmapRequest { pixmap: p })),
        CleanupRequest::FreeGC(g) => Some(Request::FreeGC(FreeGCRequest { gc: g })),
        CleanupRequest::CloseFont(f) => Some(Request::CloseFont(CloseFontRequest { font: f })),
        _ => None,
    }
}

/// A cleanup request is an X11 request that the request parser reads back: the bytes
/// of a window, pixmap, GC or font cleanup parse, in either byte order, to the
/// request that releases the same resource; those of a cursor or colormap cleanup
/// are answered with an Implementation error.
pub proof fn lemma_cleanup_parses_back(cr: CleanupRequest, order: ByteOrder)
    ensures
        request_in_bounds(order, cr.spec_bytes(order)),
        u16_at(order, cr.spec_bytes(order), 2) == 2,
        match cleanup_as_request(cr) {
            Some(req) => parse_error(order, cr.spec_bytes(order)) is None && parsed_as(
                order,
                cr.spec_bytes(order),
                req,
            ),
            None => parse_error(order, cr.spec_bytes(order)) == Some(
                x11_error(ErrorCode::Implementation, 0, 0, 0, cr.spec_opcode()),
            ),
        },
{
    let b = cr.spec_bytes(order);
    lemma_u16_roundtrip(order, 2);
    lemma_u32_roundtrip(order, cr.spec_resource());
    assert(b.subrange(4, 8) =~= u32_bytes(order, cr.spec_resource()));
}

/// A newly registered client gets an ID that no registered client has, and owns
/// nothing yet; the tables stay consistent.
pub proof fn lemma_registered_client_starts_empty(s: TrackerState)
    requires
        s.wf(),
        s.next_client_id < u32::MAX,
    ensures
        !s.clients().contains(s.next_client_id),
        s.registered(s.next_client_id).wf(),
        s.registered(s.next_client_id).clients() == s.clients().insert(s.next_client_id),
        counts_of(s.registered(s.next_client_id), s.next_client_id) == (ResourceCounts {
            windows: 0,
            pixmaps: 0,
            gcs: 0,
            fonts: 0,
            cursors: 0,
            colormaps: 0,
        }),
{
    let c = s.next_client_id;
    let r = s.registered(c);
    assert(r.clients() =~= s.clients().insert(c));
    assert(r.pixmaps.dom() =~= r.clients());
    assert(r.gcs.dom() =~= r.clients());
    assert(r.fonts.dom() =~= r.clients());
    assert(r.cursors.dom() =~= r.clients());
    assert(r.colormaps.dom() =~= r.clients());
    assert(r.atoms.dom() =~= r.clients());
}

/// A window that a client creates is its own until the client destroys it, and the
/// windows of every other client stay as they were.
pub proof fn lemma_window_owned_until_destroyed(
    s: TrackerState,
    c: u32,
    create: CreateWindowRequest,
    destroy: DestroyWindowRequest,
)
    requires
        s.wf(),
        s.clients().contains(c),
        destroy.window == create.wid,
    ensures
        set_of(s.after_request(c, Request::CreateWindow(create)).windows, c).contains(
            create.wid.0.0,
        ),
        !set_of(
            s.after_request(c, Request::CreateWindow(create)).after_request(
                c,
                Request::DestroyWindow(destroy),
            ).windows,
            c,
        ).contains(create.wid.0.0),
        forall|d: u32|
            d != c ==> set_of(s.after_request(c, Request::CreateWindow(create)).windows, d)
                == set_of(s.windows, d),
{
}

/// What tracking one request of a registered client `c` does to what each client
/// holds: creating a window, pixmap, GC, font or glyph cursor adds exactly that ID to
/// the client's set of that kind; destroying a window or freeing a pixmap, GC or font
/// removes exactly that ID; nothing else changes, for `c` or for any other client
/// `d`. A request of a client that is not registered changes nothing.
pub proof fn lemma_request_effects(s: TrackerState, c: u32, req: Request, d: u32)
    requires
        s.wf(),
    ensures
        !s.clients().contains(c) ==> s.after_request(c, req) == s,
        s.after_request(c, req).clients() == s.clients(),
        s.after_request(c, req).next_client_id == s.next_client_id,
        s.clients().contains(c) ==> set_of(s.after_request(c, req).windows, c) == match req {
            Request::CreateWindow(r) => set_of(s.windows, c).insert(r.wid.0.0),
            Request::DestroyWindow(r) => set_of(s.windows, c).remove(r.window.0.0),
            _ => set_of(s.windows, c),
        },
        s.clients().contains(c) ==> set_of(s.after_request(c, req).pixmaps, c) == match req {
            Request::CreatePixmap(r) => set_of(s.pixmaps, c).insert(r.pid.0.0),
            Request::FreePixmap(r) => set_of(s.pixmaps, c).remove(r.pixmap.0.0),
            _ => set_of(s.pixmaps, c),
        },
        s.clients().contains(c) ==> set_of(s.after_request(c, req).gcs, c) == match req {
            Request::CreateGC(r) => set_of(s.gcs, c).insert(r.cid.0.0),
            Request::FreeGC(r) => set_of(s.gcs, c).remove(r.gc.0.0),
            _ => set_of(s.gcs, c),
        },
        s.clients().contains(c) ==> set_of(s.after_request(c, req).fonts, c) == match req {
            Request::OpenFont(r) => set_of(s.fonts, c).insert(r.fid),
            Request::CloseFont(r) => set_of(s.fonts, c).remove(r.font),
            _ => set_of(s.fonts, c),
        },
        s.clients().contains(c) ==> set_of(s.after_request(c, req).cursors, c) == match req {
            Request::CreateGlyphCursor(r) => set_of(s.cursors, c).insert(r.cid),
            _ => set_of(s.cursors, c),
        },
        set_of(s.after_request(c, req).colormaps, c) == set_of(s.colormaps, c),
        set_of(s.after_request(c, req).atoms, c) == set_of(s.atoms, c),
        d != c ==> {
            &&& set_of(s.after_request(c, req).windows, d) == set_of(s.windows, d)
            &&& set_of(s.after_request(c, req).pixmaps, d) == set_of(s.pixmaps, d)
            &&& set_of(s.after_request(c, req).gcs, d) == set_of(s.gcs, d)
            &&& set_of(s.after_request(c, req).fonts, d) == set_of(s.fonts, d)
            &&& set_of(s.after_request(c, req).cursors, d) == set_of(s.cursors, d)
        },
{
    let t = s.after_request(c, req);
    assert(t.clients() =~= s.clients());
    if !s.clients().contains(c) {
        assert(t =~= s);
    }
}

/// A pixmap that a client creates and then frees is no longer its own, so the
/// client's cleanup does not free it again; a pixmap it holds stays its own until it
/// frees that one.
pub proof fn lemma_pixmap_owned_until_freed(
    s: TrackerState,
    c: u32,
    create: CreatePixmapRequest,
    free: FreePixmapRequest,
)
    requires
        s.wf(),
        s.clients().contains(c),
    ensures
        set_of(s.after_request(c, Request::CreatePixmap(create)).pixmaps, c).contains(
            create.pid.0.0,
        ),
        !set_of(
            s.after_request(c, Request::CreatePixmap(create)).after_request(
                c,
                Request::FreePixmap(free),
            ).pixmaps,
            c,
        ).contains(free.pixmap.0.0),
        free.pixmap != create.pid ==> set_of(
            s.after_request(c, Request::CreatePixmap(create)).after_request(
                c,
                Request::FreePixmap(free),
            ).pixmaps,
            c,
        ).contains(create.pid.0.0),
{
}

/// When a client is unregistered, the cleanup holds one request for each resource
/// that the client held, each resource released once, and the client is left with
/// nothing.
pub proof fn lemma_cleanup_releases_everything(
    s: TrackerState,
    c: u32,
    ws: Seq<u32>,
    ps: Seq<u32>,
    gs: Seq<u32>,
    fs: Seq<u32>,
    cs: Seq<u32>,
    ms: Seq<u32>,
)
    requires
        s.wf(),
        enumerates(ws, set_of(s.windows, c)),
        enumerates(ps, set_of(s.pixmaps, c)),
        enumerates(gs, set_of(s.gcs, c)),
        enumerates(fs, set_of(s.fonts, c)),
        enumerates(cs, set_of(s.cursors, c)),
        enumerates(ms, set_of(s.colormaps, c)),
    ensures
        cleanup_sequence(ws, ps, gs, fs, cs, ms).len() == set_of(s.windows, c).len() + set_of(
            s.pixmaps,
            c,
        ).len() + set_of(s.gcs, c).len() + set_of(s.fonts, c).len() + set_of(s.cursors, c).len()
            + set_of(s.colormaps, c).len(),
        forall|w: u32|
            set_of(s.windows, c).contains(w) ==> cleanup_sequence(ws, ps, gs, fs, cs, ms).contains(
                CleanupRequest::DestroyWindow(Window(XID(w))),
            ),
        forall|p: u32|
            set_of(s.pixmaps, c).contains(p) ==> cleanup_sequence(ws, ps, gs, fs, cs, ms).contains(
                CleanupRequest::FreePixmap(Pixmap(XID(p))),
            ),
        !s.unregistered(c).clients().contains(c),
        counts_of(s.unregistered(c), c) == (ResourceCounts {
            windows: 0,
            pixmaps: 0,
            gcs: 0,
            fonts: 0,
            cursors: 0,
            colormaps: 0,
        }),
{
    ws.unique_seq_to_set();
    ps.unique_seq_to_set();
    gs.unique_seq_to_set();
    fs.unique_seq_to_set();
    cs.unique_seq_to_set();
    ms.unique_seq_to_set();
    let all = cleanup_sequence(ws, ps, gs, fs, cs, ms);
    assert forall|w: u32| set_of(s.windows, c).contains(w) implies all.contains(
        CleanupRequest::DestroyWindow(Window(XID(w))),
    ) by {
        assert(ws.to_set().contains(w));
        let i = ws.index_of(w);
        assert(all[i] == CleanupRequest::DestroyWindow(Window(XID(w))));
    }
    assert forall|p: u32| set_of(s.pixmaps, c).contains(p) implies all.contains(
        CleanupRequest::FreePixmap(Pixmap(XID(p))),
    ) by {
        assert(ps.to_set().contains(p));
        let i = ps.index_of(p);
        assert(all[ws.len() + i] == CleanupRequest::FreePixmap(Pixmap(XID(p))));
    }
}

/// A call on the tracker: registering a client, unregistering one, or tracking a
/// request of one.
pub enum TrackerCall {
    Register,
    Unregister(u32),
    Track(u32, Request),
}

/// The state after one call (see `registered`, `unregistered`, `after_request`); a
/// registration takes the next client ID.
pub open spec fn after_call(s: TrackerState, call: TrackerCall) -> TrackerState {
    match call {
        TrackerCall::Register => s.registered(s.next_client_id),
        TrackerCall::Unregister(c) => s.unregistered(c),
        TrackerCall::Track(c, req) => s.after_request(c, req),
    }
}

/// The state after the calls, in order.
pub open spec fn after_calls(s: TrackerState, calls: Seq<TrackerCall>) -> TrackerState
    decreases calls.len(),
{
    if calls.len() == 0 {
        s
    } else {
        after_call(after_calls(s, calls.drop_last()), calls.last())
    }
}

/// How many of the calls register a client.
pub open spec fn registrations(calls: Seq<TrackerCall>) -> nat
    decreases calls.len(),
{
    if calls.len() == 0 {
        0
    } else {
        registrations(calls.drop_last()) + if calls.last() is Register {
            1nat
        } else {
            0nat
        }
    }
}

/// The client IDs that the registrations among the calls hand out, in order.
pub open spec fn issued_ids(s: TrackerState, calls: Seq<TrackerCall>) -> Seq<u32>
    decreases calls.len(),
{
    if calls.len() == 0 {
        Seq::empty()
    } else {
        let before = issued_ids(s, calls.drop_last());
        if calls.last() is Register {
            before.push(after_calls(s, calls.drop_last()).next_client_id)
        } else {
            before
        }
    }
}

/// Client IDs are handed out one after another and never reused: over any calls,
/// the registrations hand out the next ID and each one after it in turn (1, 2, 3, ...
/// from a new tracker), whatever clients were unregistered or requests tracked in
/// between, as long as the IDs fit 32 bits.
pub proof fn lemma_client_ids_never_reused(s: TrackerState, calls: Seq<TrackerCall>)
    requires
        s.next_client_id + registrations(calls) <= u32::MAX,
    ensures
        after_calls(s, calls).next_client_id == s.next_client_id + registrations(calls),
        issued_ids(s, calls) == Seq::new(
            registrations(calls),
            |i: int| (s.next_client_id + i) as u32,
        ),
    decreases calls.len(),
{
    if calls.len() > 0 {
        lemma_client_ids_never_reused(s, calls.drop_last());
        assert(issued_ids(s, calls) =~= Seq::new(
            registrations(calls),
            |i: int| (s.next_client_id + i) as u32,
        ));
    }
}

/// Whether client `c` is registered after the calls: it was registered before them,
/// or a registration among them handed it out, and no later call unregistered it.
pub open spec fn live_after(s: TrackerState, calls: Seq<TrackerCall>, c: u32) -> bool
    decreases calls.len(),
{
    if calls.len() == 0 {
        s.clients().contains(c)
    } else {
        let before = live_after(s, calls.drop_last(), c);
        match calls.last() {
            TrackerCall::Register => before || c == after_calls(s, calls.drop_last()).next_client_id,
            TrackerCall::Unregister(d) => before && c != d,
            TrackerCall::Track(_, _) => before,
        }
    }
}

/// A client has a table of windows (and every other table) after some calls exactly
/// when it was registered and not unregistered since: tracking requests neither
/// adds nor drops clients.
pub proof fn lemma_clients_follow_calls(s: TrackerState, calls: Seq<TrackerCall>, c: u32)
    ensures
        after_calls(s, calls).clients().contains(c) == live_after(s, calls, c),
    decreases calls.len(),
{
    if calls.len() > 0 {
        lemma_clients_follow_calls(s, calls.drop_last(), c);
    }
}

} // verus!
