//! Drop zones on Wayland: thin surfaces along the edges that take drags of files.
use crate::collections::IdSet;
use crate::file_drop::{
    EdgeSet, FileDropEvent, FileDropEventView, FileDropSource, PerEdge, pop_front, push_event,
};
use crate::ipc::Position;
use crate::uri::parse_uri_list;
use crate::{file_drop, text, uri};
use vstd::prelude::*;

verus! {

/// The type of a list of URIs, the only one that is taken.
pub open spec fn uri_list_mime() -> Seq<char> {
    "text/uri-list"@
}

/// How a surface lies along an edge.
#[derive(Clone, Copy, PartialEq, Eq, Structural, Debug)]
pub struct EdgeGeometry {
    /// Edges of the screen that the surface touches.
    pub anchors: EdgeSet,
    /// Width in pixels; none where it spans the screen.
    pub width: u32,
    /// Height in pixels; none where it spans the screen.
    pub height: u32,
}

/// How the surface of an edge lies: one pixel thick, from corner to corner.
pub fn edge_geometry(pos: Position) -> (r: EdgeGeometry)
    ensures
        r.anchors == (match pos {
            Position::Left => EdgeSet { left: true, right: false, top: true, bottom: true },
            Position::Right => EdgeSet { left: false, right: true, top: true, bottom: true },
            Position::Top => EdgeSet { left: true, right: true, top: true, bottom: false },
            Position::Bottom => EdgeSet { left: true, right: true, top: false, bottom: true },
        }),
        r.width == (if pos == Position::Left || pos == Position::Right {
            1u32
        } else {
            0u32
        }),
        r.height == 1 - r.width,
{
    match pos {
        Position::Left => EdgeGeometry {
            anchors: EdgeSet { left: true, right: false, top: true, bottom: true },
            width: 1,
            height: 0,
        },
        Position::Right => EdgeGeometry {
            anchors: EdgeSet { left: false, right: true, top: true, bottom: true },
            width: 1,
            height: 0,
        },
        Position::Top => EdgeGeometry {
            anchors: EdgeSet { left: true, right: true, top: true, bottom: false },
            width: 0,
            height: 1,
        },
        Position::Bottom => EdgeGeometry {
            anchors: EdgeSet { left: true, right: true, top: false, bottom: true },
            width: 0,
            height: 1,
        },
    }
}

/// What is asked of the compositor.
#[derive(Clone, Copy, PartialEq, Eq, Structural, Debug)]
pub enum DndAction {
    /// Make a surface along an edge.
    CreateSurface(Position),
    /// Destroy a surface.
    DestroySurface(u64),
    /// Attach the buffer to a surface and show it.
    AttachBuffer(u64),
    /// Accept the list of URIs of an offer.
    AcceptOffer(u64),
    /// Read the list of URIs of an offer that was dropped at an edge.
    ReceiveOffer(u64, Position),
    /// Tell the source of an offer that it was taken.
    FinishOffer(u64),
    /// Let go of an offer.
    DestroyOffer(u64),
    /// Send what was asked.
    Flush,
}

/// The offer over a drop zone.
#[derive(Clone, Copy, PartialEq, Eq, Structural, Debug)]
pub struct Hover {
    /// The offer.
    pub offer: u64,
    /// Edge of the zone.
    pub edge: Position,
}

/// State of the drop zones.
#[verifier::ext_equal]
pub struct DndView {
    /// Edges that border a client.
    pub active: EdgeSet,
    /// Surfaces along the edges.
    pub surfaces: PerEdge,
    /// Edges whose surface is shown.
    pub configured: EdgeSet,
    /// Whether there is a buffer to attach.
    pub has_buffer: bool,
    /// Offers with a list of URIs.
    pub file_offers: Set<u64>,
    /// Offer over a drop zone.
    pub hover: Option<Hover>,
    /// Events that have not been handed out.
    pub queue: Seq<FileDropEventView>,
    /// What is to be asked of the compositor.
    pub actions: Seq<DndAction>,
}

/// Asks something of the compositor.
pub open spec fn act(s: DndView, a: DndAction) -> DndView {
    DndView { actions: s.actions.push(a), ..s }
}

/// The surface at an edge is let go of.
pub open spec fn surface_forgotten(s: DndView, pos: Position) -> DndView {
    DndView {
        surfaces: s.surfaces.with(pos, None),
        configured: s.configured.without(pos),
        ..s
    }
}

/// The surface at an edge is destroyed where the edge borders no client.
pub open spec fn stale_destroyed(s: DndView, pos: Position) -> DndView {
    match s.surfaces.at(pos) {
        Some(id) if !s.active.has(pos) => act(
            surface_forgotten(s, pos),
            DndAction::DestroySurface(id),
        ),
        _ => s,
    }
}

/// A surface is asked for at an edge that borders a client and has none.
pub open spec fn missing_created(s: DndView, pos: Position) -> DndView {
    if s.active.has(pos) && s.surfaces.at(pos) is None {
        act(s, DndAction::CreateSurface(pos))
    } else {
        s
    }
}

/// The surfaces are made to match the edges that border a client.
pub open spec fn reconciled(s: DndView) -> DndView {
    let s1 = stale_destroyed(s, Position::Left);
    let s2 = stale_destroyed(s1, Position::Right);
    let s3 = stale_destroyed(s2, Position::Top);
    let s4 = stale_destroyed(s3, Position::Bottom);
    let s5 = missing_created(s4, Position::Left);
    let s6 = missing_created(s5, Position::Right);
    let s7 = missing_created(s6, Position::Top);
    let s8 = missing_created(s7, Position::Bottom);
    act(s8, DndAction::Flush)
}

/// The edges that border a client change.
pub open spec fn edges_changed(s: DndView, edges: EdgeSet) -> DndView {
    if s.active == edges {
        s
    } else {
        reconciled(DndView { active: edges, ..s })
    }
}

/// The surface at an edge is destroyed.
pub open spec fn surface_destroyed(s: DndView, pos: Position) -> DndView {
    match s.surfaces.at(pos) {
        Some(id) => act(surface_forgotten(s, pos), DndAction::DestroySurface(id)),
        None => s,
    }
}

/// Everything is taken down.
pub open spec fn terminated(s: DndView) -> DndView {
    let s1 = surface_destroyed(s, Position::Left);
    let s2 = surface_destroyed(s1, Position::Right);
    let s3 = surface_destroyed(s2, Position::Top);
    let s4 = surface_destroyed(s3, Position::Bottom);
    act(s4, DndAction::Flush)
}

/// The compositor configures the surface at an edge, after a buffer was made where there was
/// none.
pub open spec fn surface_configured(s: DndView, pos: Position, buffer_made: bool) -> DndView {
    let s1 = DndView { has_buffer: s.has_buffer || buffer_made, ..s };
    match s1.surfaces.at(pos) {
        Some(id) if s1.has_buffer => act(
            DndView { configured: s1.configured.with(pos), ..s1 },
            DndAction::AttachBuffer(id),
        ),
        _ => s1,
    }
}

/// A drag enters a surface: one with a list of URIs is taken.
pub open spec fn drag_entered(s: DndView, surface: u64, offer: Option<u64>) -> DndView {
    match (s.surfaces.edge_of(surface), offer) {
        (Some(edge), Some(offer)) if s.file_offers.contains(offer) => act(
            DndView {
                hover: Some(Hover { offer, edge }),
                queue: s.queue.push(FileDropEventView::Entered(edge)),
                ..s
            },
            DndAction::AcceptOffer(offer),
        ),
        _ => s,
    }
}

/// A drag leaves.
pub open spec fn drag_left(s: DndView) -> DndView {
    match s.hover {
        Some(h) => DndView {
            hover: None,
            queue: s.queue.push(FileDropEventView::Cancelled(h.edge)),
            ..s
        },
        None => s,
    }
}

/// A drag is dropped: its list of URIs is read.
pub open spec fn drag_dropped(s: DndView) -> DndView {
    match s.hover {
        Some(h) => act(
            DndView { hover: None, ..s },
            DndAction::ReceiveOffer(h.offer, h.edge),
        ),
        None => s,
    }
}

/// The list of URIs of an offer was read, where it could be.
pub open spec fn offer_received(s: DndView, offer: u64, edge: Position, raw: Option<Seq<u8>>) -> DndView {
    match raw {
        None => act(s, DndAction::DestroyOffer(offer)),
        Some(raw) => {
            let paths = uri::uri_list_paths(raw);
            let s1 = act(
                act(s, DndAction::FinishOffer(offer)),
                DndAction::DestroyOffer(offer),
            );
            if paths.len() == 0 {
                s1
            } else {
                DndView {
                    queue: s1.queue.push(FileDropEventView::Dropped { position: edge, paths }),
                    ..s1
                }
            }
        },
    }
}

/// Drop zones that have just been set up.
pub open spec fn fresh() -> DndView {
    DndView {
        active: EdgeSet { left: false, right: false, top: false, bottom: false },
        surfaces: file_drop::no_edges(),
        configured: EdgeSet { left: false, right: false, top: false, bottom: false },
        has_buffer: false,
        file_offers: Set::empty(),
        hover: None,
        queue: Seq::empty(),
        actions: Seq::empty(),
    }
}

/// Drop zones on Wayland.
#[derive(Debug)]
pub struct LayerShellDnd {
    active_edges: EdgeSet,
    surfaces: PerEdge,
    configured: EdgeSet,
    has_buffer: bool,
    file_offers: IdSet,
    hover: Option<Hover>,
    emit_queue: Vec<FileDropEvent>,
    actions: Vec<DndAction>,
}

impl View for LayerShellDnd {
    type V = DndView;

    closed spec fn view(&self) -> DndView {
        DndView {
            active: self.active_edges,
            surfaces: self.surfaces,
            configured: self.configured,
            has_buffer: self.has_buffer,
            file_offers: self.file_offers@,
            hover: self.hover,
            queue: file_drop::drop_views(self.emit_queue@),
            actions: self.actions@,
        }
    }
}

/// Why the drop zones could not be set up.
#[derive(Debug)]
pub enum DndInitError {
    /// No display is set.
    NoWaylandDisplay,
    /// The display could not be reached; holds its words.
    Connect(String),
    /// The compositor did not tell what it has; holds its words.
    Registry(String),
    /// The compositor lacks something; holds its words.
    Bind(String),
    /// The system refused; holds its words.
    Io(String),
}

/// What a user is told of the failure.
pub open spec fn init_error_message(e: DndInitError) -> Seq<char> {
    match e {
        DndInitError::NoWaylandDisplay => "WAYLAND_DISPLAY not set"@,
        DndInitError::Connect(e) => "wayland connect: "@ + e@,
        DndInitError::Registry(e) => "registry init: "@ + e@,
        DndInitError::Bind(e) => "bind: "@ + e@,
        DndInitError::Io(e) => "io: "@ + e@,
    }
}

impl DndInitError {
    /// What a user is told.
    pub fn message(&self) -> (r: String)
        ensures
            r@ == init_error_message(*self),
    {
        match self {
            DndInitError::NoWaylandDisplay => "WAYLAND_DISPLAY not set".to_owned(),
            DndInitError::Connect(e) => text::concat2("wayland connect: ", e.as_str()),
            DndInitError::Registry(e) => text::concat2("registry init: ", e.as_str()),
            DndInitError::Bind(e) => text::concat2("bind: ", e.as_str()),
            DndInitError::Io(e) => text::concat2("io: ", e.as_str()),
        }
    }
}

/// The drop zones, where the compositor could be reached and has what they need.
pub fn try_start(connected: &Result<(), DndInitError>) -> (r: Option<LayerShellDnd>)
    ensures
        match connected {
            Ok(_) => r is Some && r->0@ == fresh(),
            Err(_) => r is None,
        },
{
    match connected {
        Ok(_) => Some(LayerShellDnd::new()),
        Err(_) => None,
    }
}

/// What a turn of the event loop found.
#[derive(Clone, Copy, PartialEq, Eq, Structural, Debug)]
pub enum PumpInput {
    /// Nothing yet.
    Start,
    /// Reading was prepared.
    Prepared,
    /// Events were waiting and were dispatched, where that succeeded.
    Dispatched(bool),
    /// There is nothing to read.
    NotReady,
    /// There is something to read.
    Ready,
    /// Waiting failed.
    PollFailed,
    /// Something was read.
    Read,
    /// There was nothing to read after all.
    WouldBlock,
    /// Reading failed.
    ReadFailed,
}

/// What a turn of the event loop does next.
#[derive(Clone, Copy, PartialEq, Eq, Structural, Debug)]
pub enum PumpNext {
    /// Hand out an event.
    Emit,
    /// Send what was asked and prepare to read.
    Prepare,
    /// Wait for something to read.
    Poll,
    /// Read.
    Read,
    /// Give up until something can be read.
    Pending,
    /// The source has ended.
    End,
}

/// What a turn of the event loop does next. Events are handed out before anything is read.
pub open spec fn pumped(queue: Seq<FileDropEventView>, input: PumpInput) -> PumpNext {
    match input {
        PumpInput::Start | PumpInput::Dispatched(true) | PumpInput::Read => if queue.len() > 0 {
            PumpNext::Emit
        } else {
            PumpNext::Prepare
        },
        PumpInput::Prepared => PumpNext::Poll,
        PumpInput::Ready => PumpNext::Read,
        PumpInput::NotReady | PumpInput::WouldBlock => PumpNext::Pending,
        PumpInput::Dispatched(false) | PumpInput::PollFailed | PumpInput::ReadFailed => {
            PumpNext::End
        },
    }
}

impl LayerShellDnd {
    /// Drop zones without surfaces.
    pub fn new() -> (r: LayerShellDnd)
        ensures
            r@ == fresh(),
    {
        let r: LayerShellDnd = LayerShellDnd {
            active_edges: EdgeSet::new(),
            surfaces: PerEdge::new(),
            configured: EdgeSet::new(),
            has_buffer: false,
            file_offers: IdSet::new(),
            hover: None,
            emit_queue: Vec::new(),
            actions: Vec::new(),
        };
        assert(r@ =~= fresh());
        r
    }

    /// Hands out what is to be asked of the compositor.
    pub fn take_actions(&mut self) -> (r: Vec<DndAction>)
        ensures
            r@ == old(self)@.actions,
            final(self)@ == (DndView { actions: Seq::empty(), ..old(self)@ }),
    {
        let mut r: Vec<DndAction> = Vec::new();
        r.append(&mut self.actions);
        assert(r@ =~= old(self)@.actions);
        assert(self@ =~= DndView { actions: Seq::empty(), ..old(self)@ });
        r
    }

    fn ask(&mut self, a: DndAction)
        ensures
            final(self)@ == act(old(self)@, a),
    {
        self.actions.push(a);
        assert(self@ =~= act(old(self)@, a));
    }

    fn emit(&mut self, e: FileDropEvent)
        ensures
            final(self)@ == (DndView { queue: old(self)@.queue.push(e@), ..old(self)@ }),
    {
        push_event(&mut self.emit_queue, e);
        assert(self@ =~= DndView { queue: old(self)@.queue.push(e@), ..old(self)@ });
    }

    fn forget(&mut self, pos: Position)
        ensures
            final(self)@ == surface_forgotten(old(self)@, pos),
    {
        self.surfaces.set(pos, None);
        self.configured.remove(pos);
        assert(self@ =~= surface_forgotten(old(self)@, pos));
    }

    fn destroy_stale(&mut self, pos: Position)
        ensures
            final(self)@ == stale_destroyed(old(self)@, pos),
    {
        match self.surfaces.get(pos) {
            Some(id) => {
                if !self.active_edges.contains(pos) {
                    self.forget(pos);
                    self.ask(DndAction::DestroySurface(id));
                }
            },
            None => {},
        }
    }

    fn create_missing(&mut self, pos: Position)
        ensures
            final(self)@ == missing_created(old(self)@, pos),
    {
        if self.active_edges.contains(pos) && self.surfaces.get(pos).is_none() {
            self.ask(DndAction::CreateSurface(pos));
        }
    }

    /// Makes the surfaces match the edges that border a client.
    pub fn reconcile_surfaces(&mut self)
        ensures
            final(self)@ == reconciled(old(self)@),
    {
        self.destroy_stale(Position::Left);
        self.destroy_stale(Position::Right);
        self.destroy_stale(Position::Top);
        self.destroy_stale(Position::Bottom);
        self.create_missing(Position::Left);
        self.create_missing(Position::Right);
        self.create_missing(Position::Top);
        self.create_missing(Position::Bottom);
        self.ask(DndAction::Flush);
    }

    fn destroy(&mut self, pos: Position)
        ensures
            final(self)@ == surface_destroyed(old(self)@, pos),
    {
        match self.surfaces.get(pos) {
            Some(id) => {
                self.forget(pos);
                self.ask(DndAction::DestroySurface(id));
            },
            None => {},
        }
    }

    /// The surface that was asked for at an edge was made.
    pub fn surface_created(&mut self, pos: Position, surface: u64)
        ensures
            final(self)@ == (DndView {
                surfaces: old(self)@.surfaces.with(pos, Some(surface)),
                configured: old(self)@.configured.without(pos),
                ..old(self)@
            }),
    {
        self.surfaces.set(pos, Some(surface));
        self.configured.remove(pos);
        proof {
            assert(self@ =~= DndView {
                surfaces: old(self)@.surfaces.with(pos, Some(surface)),
                configured: old(self)@.configured.without(pos),
                ..old(self)@
            });
        }
    }

    /// Whether a buffer has to be made before a surface can be shown.
    pub fn needs_buffer(&self) -> (r: bool)
        ensures
            r == !self@.has_buffer,
    {
        !self.has_buffer
    }

    /// The compositor configured the surface at an edge; a buffer may have been made just now.
    pub fn on_configure(&mut self, pos: Position, buffer_made: bool)
        ensures
            final(self)@ == surface_configured(old(self)@, pos, buffer_made),
    {
        if buffer_made {
            self.has_buffer = true;
        }
        match self.surfaces.get(pos) {
            Some(id) => {
                if self.has_buffer {
                    self.configured.insert(pos);
                    self.ask(DndAction::AttachBuffer(id));
                }
            },
            None => {},
        }
        assert(self@ =~= surface_configured(old(self)@, pos, buffer_made));
    }

    /// The compositor closed the surface at an edge.
    pub fn on_closed(&mut self, pos: Position)
        ensures
            final(self)@ == surface_forgotten(old(self)@, pos),
    {
        self.forget(pos);
    }

    /// A new offer, of which nothing is known yet.
    pub fn on_data_offer(&mut self, offer: u64)
        ensures
            final(self)@ == (DndView {
                file_offers: old(self)@.file_offers.remove(offer),
                ..old(self)@
            }),
    {
        let _ = self.file_offers.remove(offer);
        proof {
            assert(self@ =~= DndView {
                file_offers: old(self)@.file_offers.remove(offer),
                ..old(self)@
            });
        }
    }

    /// An offer has a type.
    pub fn on_offer_type(&mut self, offer: u64, mime_type: &str)
        ensures
            final(self)@ == (if mime_type@ == uri_list_mime() {
                DndView { file_offers: old(self)@.file_offers.insert(offer), ..old(self)@ }
            } else {
                old(self)@
            }),
    {
        if text::str_eq(mime_type, "text/uri-list") {
            let _ = self.file_offers.insert(offer);
            proof {
                assert(self@ =~= DndView {
                    file_offers: old(self)@.file_offers.insert(offer),
                    ..old(self)@
                });
            }
        }
    }

    /// A drag entered a surface.
    pub fn on_enter(&mut self, surface: u64, offer: Option<u64>)
        ensures
            final(self)@ == drag_entered(old(self)@, surface, offer),
    {
        let edge: Position = match self.surfaces.find(surface) {
            Some(e) => e,
            None => {
                return;
            },
        };
        let offer: u64 = match offer {
            Some(o) => o,
            None => {
                return;
            },
        };
        if !self.file_offers.contains(offer) {
            return;
        }
        self.ask(DndAction::AcceptOffer(offer));
        self.hover = Some(Hover { offer, edge });
        self.emit(FileDropEvent::Entered(edge));
        assert(self@ =~= drag_entered(old(self)@, surface, Some(offer)));
    }

    /// The drag left.
    pub fn on_leave(&mut self)
        ensures
            final(self)@ == drag_left(old(self)@),
    {
        match self.hover {
            Some(h) => {
                self.hover = None;
                self.emit(FileDropEvent::Cancelled(h.edge));
            },
            None => {},
        }
        assert(self@ =~= drag_left(old(self)@));
    }

    /// The drag was dropped.
    pub fn on_drop(&mut self)
        ensures
            final(self)@ == drag_dropped(old(self)@),
    {
        match self.hover {
            Some(h) => {
                self.hover = None;
                self.ask(DndAction::ReceiveOffer(h.offer, h.edge));
            },
            None => {},
        }
        assert(self@ =~= drag_dropped(old(self)@));
    }

    /// The list of URIs of an offer was read, where it could be.
    pub fn on_received(&mut self, offer: u64, edge: Position, raw: Option<Vec<u8>>)
        ensures
            final(self)@ == offer_received(
                old(self)@,
                offer,
                edge,
                match raw {
                    Some(v) => Some(v@),
                    None => None,
                },
            ),
    {
        match raw {
            None => {
                self.ask(DndAction::DestroyOffer(offer));
            },
            Some(v) => {
                let paths: Vec<String> = parse_uri_list(v.as_slice());
                self.ask(DndAction::FinishOffer(offer));
                self.ask(DndAction::DestroyOffer(offer));
                assert(text::views(paths@).len() == paths@.len());
                if paths.len() > 0 {
                    self.emit(FileDropEvent::Dropped { position: edge, paths });
                }
            },
        }
    }

    /// What a turn of the event loop does next.
    pub fn pump(&self, input: PumpInput) -> (r: PumpNext)
        ensures
            r == pumped(self@.queue, input),
    {
        match input {
            PumpInput::Start | PumpInput::Dispatched(true) | PumpInput::Read => {
                if self.emit_queue.len() > 0 {
                    PumpNext::Emit
                } else {
                    PumpNext::Prepare
                }
            },
            PumpInput::Prepared => PumpNext::Poll,
            PumpInput::Ready => PumpNext::Read,
            PumpInput::NotReady | PumpInput::WouldBlock => PumpNext::Pending,
            PumpInput::Dispatched(false) | PumpInput::PollFailed | PumpInput::ReadFailed => {
                PumpNext::End
            },
        }
    }
}

impl FileDropSource for LayerShellDnd {
    open spec fn queued(&self) -> Seq<FileDropEventView> {
        self@.queue
    }

    fn set_active_edges(&mut self, edges: EdgeSet)
        ensures
            final(self)@ == edges_changed(old(self)@, edges),
    {
        if self.active_edges == edges {
            return;
        }
        self.active_edges = edges;
        assert(self@ =~= DndView { active: edges, ..old(self)@ });
        self.reconcile_surfaces();
    }

    fn terminate(&mut self)
        ensures
            final(self)@ == terminated(old(self)@),
    {
        self.destroy(Position::Left);
        self.destroy(Position::Right);
        self.destroy(Position::Top);
        self.destroy(Position::Bottom);
        self.ask(DndAction::Flush);
    }

    fn next_event(&mut self) -> (r: Option<FileDropEvent>)
        ensures
            final(self)@ == (DndView {
                queue: file_drop::behind_front(old(self)@.queue),
                ..old(self)@
            }),
    {
        let r: Option<FileDropEvent> = pop_front(&mut self.emit_queue);
        proof {
            assert(self@ =~= DndView {
                queue: file_drop::behind_front(old(self)@.queue),
                ..old(self)@
            });
        }
        r
    }
}

// ----- laws -----------------------------------------------------------------

/// After a change of the edges no surface is left at an edge that borders no client, every other
/// surface is kept, and a surface is asked for at exactly the edges that border a client and have
/// none.
pub proof fn law_surfaces_follow_edges(s: DndView, edges: EdgeSet, pos: Position)
    requires
        s.active != edges,
        s.actions.len() == 0,
    ensures
        ({
            let t = edges_changed(s, edges);
            &&& t.surfaces.at(pos) == (if edges.has(pos) {
                s.surfaces.at(pos)
            } else {
                None
            })
            &&& t.actions.contains(DndAction::CreateSurface(pos)) <==> (edges.has(pos)
                && s.surfaces.at(pos) is None)
            &&& s.surfaces.at(pos) is Some && !edges.has(pos) ==> t.actions.contains(
                DndAction::DestroySurface(s.surfaces.at(pos)->0),
            )
        }),
{
    let s0 = DndView { active: edges, ..s };
    let s1 = stale_destroyed(s0, Position::Left);
    let s2 = stale_destroyed(s1, Position::Right);
    let s3 = stale_destroyed(s2, Position::Top);
    let s4 = stale_destroyed(s3, Position::Bottom);
    let s5 = missing_created(s4, Position::Left);
    let s6 = missing_created(s5, Position::Right);
    let s7 = missing_created(s6, Position::Top);
    let s8 = missing_created(s7, Position::Bottom);
    let t = act(s8, DndAction::Flush);
    let c = DndAction::CreateSurface(pos);
    lemma_stale_contains(s0, Position::Left, c);
    lemma_stale_contains(s1, Position::Right, c);
    lemma_stale_contains(s2, Position::Top, c);
    lemma_stale_contains(s3, Position::Bottom, c);
    lemma_missing_contains(s4, Position::Left, c);
    lemma_missing_contains(s5, Position::Right, c);
    lemma_missing_contains(s6, Position::Top, c);
    lemma_missing_contains(s7, Position::Bottom, c);
    lemma_act_contains(s8, DndAction::Flush, c);
    if s.surfaces.at(pos) is Some {
        let d = DndAction::DestroySurface(s.surfaces.at(pos)->0);
        lemma_stale_contains(s0, Position::Left, d);
        lemma_stale_contains(s1, Position::Right, d);
        lemma_stale_contains(s2, Position::Top, d);
        lemma_stale_contains(s3, Position::Bottom, d);
        lemma_missing_contains(s4, Position::Left, d);
        lemma_missing_contains(s5, Position::Right, d);
        lemma_missing_contains(s6, Position::Top, d);
        lemma_missing_contains(s7, Position::Bottom, d);
        lemma_act_contains(s8, DndAction::Flush, d);
    }
}

proof fn lemma_act_contains(s: DndView, a: DndAction, x: DndAction)
    ensures
        act(s, a).actions.contains(x) <==> s.actions.contains(x) || a == x,
{
    let t = s.actions.push(a);
    if s.actions.contains(x) {
        let i = choose|i: int| 0 <= i < s.actions.len() && s.actions[i] == x;
        assert(t[i] == x);
    }
    if a == x {
        assert(t[s.actions.len() as int] == x);
    }
    if t.contains(x) {
        let i = choose|i: int| 0 <= i < t.len() && t[i] == x;
        if i < s.actions.len() {
            assert(s.actions[i] == x);
        }
    }
}

proof fn lemma_stale_contains(s: DndView, pos: Position, x: DndAction)
    ensures
        stale_destroyed(s, pos).actions.contains(x) <==> s.actions.contains(x) || (s.surfaces.at(
            pos,
        ) is Some && !s.active.has(pos) && x == DndAction::DestroySurface(
            s.surfaces.at(pos)->0,
        )),
{
    if s.surfaces.at(pos) is Some {
        lemma_act_contains(
            surface_forgotten(s, pos),
            DndAction::DestroySurface(s.surfaces.at(pos)->0),
            x,
        );
    }
}

proof fn lemma_missing_contains(s: DndView, pos: Position, x: DndAction)
    ensures
        missing_created(s, pos).actions.contains(x) <==> s.actions.contains(x) || (s.active.has(
            pos,
        ) && s.surfaces.at(pos) is None && x == DndAction::CreateSurface(pos)),
{
    lemma_act_contains(s, DndAction::CreateSurface(pos), x);
}

/// When the drop zones are taken down, no surface is left.
pub proof fn law_terminate_leaves_nothing(s: DndView, pos: Position)
    ensures
        terminated(s).surfaces.at(pos) is None,
{
}

/// Only drags of files over a drop zone are taken: a drag without a list of URIs, or over
/// another surface, leaves no trace.
pub proof fn law_other_drags_ignored(s: DndView, surface: u64, offer: Option<u64>)
    requires
        offer is None || !s.file_offers.contains(offer->0) || s.surfaces.edge_of(
            surface,
        ) is None,
    ensures
        drag_entered(s, surface, offer) == s,
{
}

/// A drag that was taken and leaves is reported as cancelled at the edge at which it was
/// reported; leaving again reports nothing.
pub proof fn law_enter_leave(s: DndView, surface: u64, offer: u64)
    requires
        s.file_offers.contains(offer),
        s.surfaces.edge_of(surface) is Some,
    ensures
        ({
            let edge = s.surfaces.edge_of(surface)->0;
            let t = drag_left(drag_entered(s, surface, Some(offer)));
            &&& t.queue == s.queue.push(FileDropEventView::Entered(edge)).push(
                FileDropEventView::Cancelled(edge),
            )
            &&& t.hover is None
            &&& drag_left(t) == t
        }),
{
}

/// What is dropped is reported with the edge of the drop zone and all of its files, and the offer
/// is finished and let go of; a drop without files reports nothing.
pub proof fn law_drop_reports_files(s: DndView, raw: Seq<u8>)
    requires
        s.hover is Some,
    ensures
        ({
            let h = s.hover->0;
            let t = offer_received(drag_dropped(s), h.offer, h.edge, Some(raw));
            let paths = uri::uri_list_paths(raw);
            &&& t.hover is None
            &&& t.actions == s.actions.push(DndAction::ReceiveOffer(h.offer, h.edge)).push(
                DndAction::FinishOffer(h.offer),
            ).push(DndAction::DestroyOffer(h.offer))
            &&& t.queue == (if paths.len() == 0 {
                s.queue
            } else {
                s.queue.push(FileDropEventView::Dropped { position: h.edge, paths })
            })
        }),
{
}

/// The same edges again change nothing; other ones become the active edges, the drag and the events
/// are not touched, and what was asked is sent at once.
pub proof fn law_edges_are_taken(s: DndView, edges: EdgeSet)
    ensures
        s.active == edges ==> edges_changed(s, edges) == s,
        s.active != edges ==> ({
            let t = edges_changed(s, edges);
            &&& t.active == edges
            &&& t.hover == s.hover
            &&& t.queue == s.queue
            &&& t.file_offers == s.file_offers
            &&& t.has_buffer == s.has_buffer
            &&& t.actions.last() == DndAction::Flush
        }),
{
}

/// A surface that is kept stays shown, and no surface is shown at an edge that has none any more.
pub proof fn law_shown_surfaces(s: DndView, edges: EdgeSet, pos: Position)
    requires
        s.active != edges,
    ensures
        edges_changed(s, edges).configured.has(pos) == (s.configured.has(pos) && (edges.has(pos)
            || s.surfaces.at(pos) is None)),
{
}

/// A surface is shown once there is a buffer for it; an edge without a surface is not.
pub proof fn law_surface_is_shown(s: DndView, pos: Position, q: Position, made: bool)
    ensures
        ({
            let t = surface_configured(s, pos, made);
            let buffer = s.has_buffer || made;
            &&& t.has_buffer == buffer
            &&& s.surfaces.at(pos) matches Some(id) ==> buffer ==> t.actions == s.actions.push(
                DndAction::AttachBuffer(id),
            ) && t.configured.has(q) == (q == pos || s.configured.has(q))
            &&& !buffer || s.surfaces.at(pos) is None ==> t == (DndView { has_buffer: buffer, ..s })
        }),
{
}

/// A drag of files over a drop zone is accepted and reported at the edge of the zone, and is over
/// that zone from then on.
pub proof fn law_drag_is_taken(s: DndView, pos: Position, surface: u64, offer: u64)
    requires
        s.file_offers.contains(offer),
        s.surfaces.at(pos) == Some(surface),
        forall|q: Position| q != pos ==> #[trigger] s.surfaces.at(q) != Some(surface),
    ensures
        drag_entered(s, surface, Some(offer)) == (DndView {
            hover: Some(Hover { offer, edge: pos }),
            queue: s.queue.push(FileDropEventView::Entered(pos)),
            actions: s.actions.push(DndAction::AcceptOffer(offer)),
            ..s
        }),
{
    assert(s.surfaces.edge_of(surface) == Some(pos)) by {
        crate::file_drop::law_per_edge(s.surfaces, pos, pos, None, surface);
    }
}

/// A drop over a zone is read there; one elsewhere, or a drag that leaves without having entered,
/// does nothing. An offer that cannot be read is let go of.
pub proof fn law_drop_is_read(s: DndView, h: Hover, offer: u64, edge: Position)
    ensures
        s.hover == Some(h) ==> drag_dropped(s) == (DndView {
            hover: None,
            actions: s.actions.push(DndAction::ReceiveOffer(h.offer, h.edge)),
            ..s
        }),
        s.hover is None ==> drag_dropped(s) == s && drag_left(s) == s,
        offer_received(s, offer, edge, None) == (DndView {
            actions: s.actions.push(DndAction::DestroyOffer(offer)),
            ..s
        }),
{
}

/// When the zones are taken down every surface that there is is destroyed, and that is sent.
pub proof fn law_everything_is_taken_down(s: DndView, pos: Position)
    ensures
        s.surfaces.at(pos) matches Some(id) ==> terminated(s).actions.contains(
            DndAction::DestroySurface(id),
        ),
        terminated(s).actions.last() == DndAction::Flush,
        terminated(s).queue == s.queue,
{
    let s1 = surface_destroyed(s, Position::Left);
    let s2 = surface_destroyed(s1, Position::Right);
    let s3 = surface_destroyed(s2, Position::Top);
    let s4 = surface_destroyed(s3, Position::Bottom);
    let t = terminated(s);
    if let Some(id) = s.surfaces.at(pos) {
        let a = DndAction::DestroySurface(id);
        match pos {
            Position::Left => assert(t.actions[s1.actions.len() - 1] == a),
            Position::Right => assert(t.actions[s2.actions.len() - 1] == a),
            Position::Top => assert(t.actions[s3.actions.len() - 1] == a),
            Position::Bottom => assert(t.actions[s4.actions.len() - 1] == a),
        }
    }
}

/// Waiting events go before anything is read; a failure ends the source, and nothing to read is no
/// failure.
pub proof fn law_pump(queue: Seq<FileDropEventView>, input: PumpInput)
    ensures
        input == PumpInput::Start || input == PumpInput::Read || input == PumpInput::Dispatched(
            true,
        ) ==> pumped(queue, input) == if queue.len() > 0 {
            PumpNext::Emit
        } else {
            PumpNext::Prepare
        },
        pumped(queue, PumpInput::Prepared) == PumpNext::Poll,
        pumped(queue, PumpInput::Ready) == PumpNext::Read,
        input == PumpInput::NotReady || input == PumpInput::WouldBlock ==> pumped(queue, input)
            == PumpNext::Pending,
        pumped(queue, input) == PumpNext::End <==> (input == PumpInput::Dispatched(false) || input
            == PumpInput::PollFailed || input == PumpInput::ReadFailed),
{
}

/// What a user is told of a failure ends in the words of the system.
pub proof fn law_init_error(e: DndInitError)
    ensures
        e matches DndInitError::Connect(w) ==> w@.is_suffix_of(init_error_message(e)),
        e matches DndInitError::Registry(w) ==> w@.is_suffix_of(init_error_message(e)),
        e matches DndInitError::Bind(w) ==> w@.is_suffix_of(init_error_message(e)),
        e matches DndInitError::Io(w) ==> w@.is_suffix_of(init_error_message(e)),
        e is NoWaylandDisplay ==> init_error_message(e) == "WAYLAND_DISPLAY not set"@,
{
    let m = init_error_message(e);
    match e {
        DndInitError::Connect(w) => {
            assert(m.subrange(m.len() - w@.len(), m.len() as int) =~= w@);
        },
        DndInitError::Registry(w) => {
            assert(m.subrange(m.len() - w@.len(), m.len() as int) =~= w@);
        },
        DndInitError::Bind(w) => {
            assert(m.subrange(m.len() - w@.len(), m.len() as int) =~= w@);
        },
        DndInitError::Io(w) => {
            assert(m.subrange(m.len() - w@.len(), m.len() as int) =~= w@);
        },
        _ => {},
    }
}

/// New drop zones border nothing, show nothing and have nothing to say; files are recognized by their
/// type.
pub proof fn law_fresh(pos: Position)
    ensures
        !fresh().active.has(pos) && !fresh().configured.has(pos) && fresh().surfaces.at(pos) is None,
        fresh().hover is None && fresh().queue.len() == 0 && fresh().actions.len() == 0,
        !fresh().has_buffer,
        uri_list_mime() == "text/uri-list"@,
{
}

} // verus!
