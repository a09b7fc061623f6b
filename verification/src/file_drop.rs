//! Drop zones along the edges of the screen: what is dropped there is sent to the client behind
//! the edge.
use crate::file_drop::layer_shell::LayerShellDnd;
use crate::file_drop::windows::WindowsDropTarget;
use crate::ipc::Position;
use crate::{ipc, text};
use vstd::prelude::*;

pub mod layer_shell;
pub mod windows;

verus! {

// ----- edges ----------------------------------------------------------------

/// A set of edges of the screen.
#[derive(Clone, Copy, PartialEq, Eq, Structural, Debug)]
pub struct EdgeSet {
    /// Whether the left edge is in it.
    pub left: bool,
    /// Whether the right edge is in it.
    pub right: bool,
    /// Whether the top edge is in it.
    pub top: bool,
    /// Whether the bottom edge is in it.
    pub bottom: bool,
}

impl EdgeSet {
    /// Whether an edge is in the set.
    pub open spec fn has(self, pos: Position) -> bool {
        match pos {
            Position::Left => self.left,
            Position::Right => self.right,
            Position::Top => self.top,
            Position::Bottom => self.bottom,
        }
    }

    /// The set with an edge.
    pub open spec fn with(self, pos: Position) -> EdgeSet {
        match pos {
            Position::Left => EdgeSet { left: true, ..self },
            Position::Right => EdgeSet { right: true, ..self },
            Position::Top => EdgeSet { top: true, ..self },
            Position::Bottom => EdgeSet { bottom: true, ..self },
        }
    }

    /// The set without an edge.
    pub open spec fn without(self, pos: Position) -> EdgeSet {
        match pos {
            Position::Left => EdgeSet { left: false, ..self },
            Position::Right => EdgeSet { right: false, ..self },
            Position::Top => EdgeSet { top: false, ..self },
            Position::Bottom => EdgeSet { bottom: false, ..self },
        }
    }

    /// The empty set.
    pub fn new() -> (r: EdgeSet)
        ensures
            forall|p: Position| !r.has(p),
            r == (EdgeSet { left: false, right: false, top: false, bottom: false }),
    {
        EdgeSet { left: false, right: false, top: false, bottom: false }
    }

    /// Whether an edge is in the set.
    pub fn contains(&self, pos: Position) -> (r: bool)
        ensures
            r == self.has(pos),
    {
        match pos {
            Position::Left => self.left,
            Position::Right => self.right,
            Position::Top => self.top,
            Position::Bottom => self.bottom,
        }
    }

    /// Adds an edge.
    pub fn insert(&mut self, pos: Position)
        ensures
            *final(self) == old(self).with(pos),
    {
        match pos {
            Position::Left => self.left = true,
            Position::Right => self.right = true,
            Position::Top => self.top = true,
            Position::Bottom => self.bottom = true,
        }
    }

    /// Removes an edge.
    pub fn remove(&mut self, pos: Position)
        ensures
            *final(self) == old(self).without(pos),
    {
        match pos {
            Position::Left => self.left = false,
            Position::Right => self.right = false,
            Position::Top => self.top = false,
            Position::Bottom => self.bottom = false,
        }
    }
}

/// The number of a surface or window at each edge that has one.
#[derive(Clone, Copy, PartialEq, Eq, Structural, Debug)]
pub struct PerEdge {
    /// At the left edge.
    pub left: Option<u64>,
    /// At the right edge.
    pub right: Option<u64>,
    /// At the top edge.
    pub top: Option<u64>,
    /// At the bottom edge.
    pub bottom: Option<u64>,
}

/// No edge has any.
pub open spec fn no_edges() -> PerEdge {
    PerEdge { left: None, right: None, top: None, bottom: None }
}

impl PerEdge {
    /// What is at an edge.
    pub open spec fn at(self, pos: Position) -> Option<u64> {
        match pos {
            Position::Left => self.left,
            Position::Right => self.right,
            Position::Top => self.top,
            Position::Bottom => self.bottom,
        }
    }

    /// The same with something else at an edge.
    pub open spec fn with(self, pos: Position, id: Option<u64>) -> PerEdge {
        match pos {
            Position::Left => PerEdge { left: id, ..self },
            Position::Right => PerEdge { right: id, ..self },
            Position::Top => PerEdge { top: id, ..self },
            Position::Bottom => PerEdge { bottom: id, ..self },
        }
    }

    /// The edge at which something is.
    pub open spec fn edge_of(self, id: u64) -> Option<Position> {
        if self.left == Some(id) {
            Some(Position::Left)
        } else if self.right == Some(id) {
            Some(Position::Right)
        } else if self.top == Some(id) {
            Some(Position::Top)
        } else if self.bottom == Some(id) {
            Some(Position::Bottom)
        } else {
            None
        }
    }

    /// Nothing at any edge.
    pub fn new() -> (r: PerEdge)
        ensures
            r == no_edges(),
    {
        PerEdge { left: None, right: None, top: None, bottom: None }
    }

    /// What is at an edge.
    pub fn get(&self, pos: Position) -> (r: Option<u64>)
        ensures
            r == self.at(pos),
    {
        match pos {
            Position::Left => self.left,
            Position::Right => self.right,
            Position::Top => self.top,
            Position::Bottom => self.bottom,
        }
    }

    /// Puts something at an edge.
    pub fn set(&mut self, pos: Position, id: Option<u64>)
        ensures
            *final(self) == old(self).with(pos, id),
    {
        match pos {
            Position::Left => self.left = id,
            Position::Right => self.right = id,
            Position::Top => self.top = id,
            Position::Bottom => self.bottom = id,
        }
    }

    /// The edge at which something is.
    pub fn find(&self, id: u64) -> (r: Option<Position>)
        ensures
            r == self.edge_of(id),
    {
        if is_id(self.left, id) {
            Some(Position::Left)
        } else if is_id(self.right, id) {
            Some(Position::Right)
        } else if is_id(self.top, id) {
            Some(Position::Top)
        } else if is_id(self.bottom, id) {
            Some(Position::Bottom)
        } else {
            None
        }
    }
}

fn is_id(o: Option<u64>, id: u64) -> (r: bool)
    ensures
        r == (o == Some(id)),
{
    match o {
        Some(x) => x == id,
        None => false,
    }
}

// ----- events ---------------------------------------------------------------

/// What happens at a drop zone.
#[derive(Debug)]
pub enum FileDropEvent {
    /// A drag entered the zone. Advisory.
    Entered(Position),
    /// A drag with files entered the zone.
    DragStarted {
        /// Edge of the zone.
        position: Position,
        /// The files.
        paths: Vec<String>,
    },
    /// A drag with files was released in the zone instead of being carried over.
    DragEndedEarly {
        /// Edge of the zone.
        position: Position,
        /// The files.
        paths: Vec<String>,
    },
    /// Files were dropped in the zone.
    Dropped {
        /// Edge of the zone.
        position: Position,
        /// The files.
        paths: Vec<String>,
    },
    /// The drag left the zone. Follows [`FileDropEvent::Entered`].
    Cancelled(Position),
}

/// Contents of a [`FileDropEvent`].
#[verifier::ext_equal]
pub enum FileDropEventView {
    /// See [`FileDropEvent::Entered`].
    Entered(Position),
    /// See [`FileDropEvent::DragStarted`].
    DragStarted {
        /// See [`FileDropEvent::DragStarted`].
        position: Position,
        /// See [`FileDropEvent::DragStarted`].
        paths: Seq<Seq<char>>,
    },
    /// See [`FileDropEvent::DragEndedEarly`].
    DragEndedEarly {
        /// See [`FileDropEvent::DragEndedEarly`].
        position: Position,
        /// See [`FileDropEvent::DragEndedEarly`].
        paths: Seq<Seq<char>>,
    },
    /// See [`FileDropEvent::Dropped`].
    Dropped {
        /// See [`FileDropEvent::Dropped`].
        position: Position,
        /// See [`FileDropEvent::Dropped`].
        paths: Seq<Seq<char>>,
    },
    /// See [`FileDropEvent::Cancelled`].
    Cancelled(Position),
}

impl View for FileDropEvent {
    type V = FileDropEventView;

    open spec fn view(&self) -> FileDropEventView {
        match self {
            FileDropEvent::Entered(p) => FileDropEventView::Entered(*p),
            FileDropEvent::DragStarted { position, paths } => FileDropEventView::DragStarted {
                position: *position,
                paths: text::views(paths@),
            },
            FileDropEvent::DragEndedEarly { position, paths } => {
                FileDropEventView::DragEndedEarly {
                    position: *position,
                    paths: text::views(paths@),
                }
            },
            FileDropEvent::Dropped { position, paths } => FileDropEventView::Dropped {
                position: *position,
                paths: text::views(paths@),
            },
            FileDropEvent::Cancelled(p) => FileDropEventView::Cancelled(*p),
        }
    }
}

/// The contents of a list of events.
pub open spec fn drop_views(v: Seq<FileDropEvent>) -> Seq<FileDropEventView> {
    Seq::new(v.len(), |i: int| v[i]@)
}

/// The contents of an optional event.
pub open spec fn opt_drop_view(e: Option<FileDropEvent>) -> Option<FileDropEventView> {
    match e {
        Some(e) => Some(e@),
        None => None,
    }
}

/// The first of a list, where there is one.
pub open spec fn front(q: Seq<FileDropEventView>) -> Option<FileDropEventView> {
    if q.len() == 0 {
        None
    } else {
        Some(q[0])
    }
}

/// A list without its first.
pub open spec fn behind_front(q: Seq<FileDropEventView>) -> Seq<FileDropEventView> {
    if q.len() == 0 {
        q
    } else {
        q.skip(1)
    }
}

/// How an event is shown in a log.
pub open spec fn event_text(e: FileDropEventView) -> Seq<char> {
    match e {
        FileDropEventView::Entered(p) => "drag entered "@ + ipc::position_name(p),
        FileDropEventView::DragStarted { position, paths } => "drag started at "@
            + ipc::position_name(position) + " ("@ + text::dec(paths.len()) + " paths)"@,
        FileDropEventView::DragEndedEarly { position, paths } => "drag ended early at "@
            + ipc::position_name(position) + " ("@ + text::dec(paths.len()) + " paths)"@,
        FileDropEventView::Dropped { position, paths } => "drop at "@ + ipc::position_name(
            position,
        ) + " ("@ + text::dec(paths.len()) + " paths)"@,
        FileDropEventView::Cancelled(p) => "drag cancelled at "@ + ipc::position_name(p),
    }
}

fn with_count(head: &str, position: Position, count: usize) -> (r: String)
    ensures
        r@ == head@ + ipc::position_name(position) + " ("@ + text::dec(count as nat)
            + " paths)"@,
{
    let a: String = text::concat3(head, position.name(), " (");
    let n: String = text::dec_string(count as u64);
    text::concat3(a.as_str(), n.as_str(), " paths)")
}

impl FileDropEvent {
    /// How the event is shown in a log.
    pub fn message(&self) -> (r: String)
        ensures
            r@ == event_text(self@),
    {
        match self {
            FileDropEvent::Entered(p) => text::concat2("drag entered ", p.name()),
            FileDropEvent::DragStarted { position, paths } => with_count(
                "drag started at ",
                *position,
                paths.len(),
            ),
            FileDropEvent::DragEndedEarly { position, paths } => with_count(
                "drag ended early at ",
                *position,
                paths.len(),
            ),
            FileDropEvent::Dropped { position, paths } => with_count(
                "drop at ",
                *position,
                paths.len(),
            ),
            FileDropEvent::Cancelled(p) => text::concat2("drag cancelled at ", p.name()),
        }
    }
}

/// Takes the first event out of a queue.
pub fn pop_front(queue: &mut Vec<FileDropEvent>) -> (r: Option<FileDropEvent>)
    ensures
        opt_drop_view(r) == front(drop_views(old(queue)@)),
        drop_views(final(queue)@) == behind_front(drop_views(old(queue)@)),
{
    if queue.len() == 0 {
        return None;
    }
    let e: FileDropEvent = queue.remove(0);
    assert(drop_views(queue@) =~= behind_front(drop_views(old(queue)@)));
    Some(e)
}

/// Puts an event at the end of a queue.
pub fn push_event(queue: &mut Vec<FileDropEvent>, e: FileDropEvent)
    ensures
        drop_views(final(queue)@) == drop_views(old(queue)@).push(e@),
{
    queue.push(e);
    assert(drop_views(queue@) =~= drop_views(old(queue)@).push(e@));
}

// ----- sources --------------------------------------------------------------

/// Where file-drop events come from. A source shows and hides its drop zones as it is told which
/// edges border a client.
pub trait FileDropSource {
    /// The events that have happened and have not been handed out, in order.
    spec fn queued(&self) -> Seq<FileDropEventView>;

    /// Tells which edges border a client.
    fn set_active_edges(&mut self, edges: EdgeSet)
        ensures
            final(self).queued() == old(self).queued(),
    ;

    /// Shuts the source down.
    fn terminate(&mut self)
        ensures
            final(self).queued() == old(self).queued(),
    ;

    /// Hands out the next event, where one has happened.
    fn next_event(&mut self) -> (r: Option<FileDropEvent>)
        ensures
            opt_drop_view(r) == front(old(self).queued()),
            final(self).queued() == behind_front(old(self).queued()),
    ;
}

/// A source without drop zones, which never hands out anything.
#[derive(Debug)]
pub struct DummyFileDropSource {}

impl FileDropSource for DummyFileDropSource {
    open spec fn queued(&self) -> Seq<FileDropEventView> {
        Seq::empty()
    }

    fn set_active_edges(&mut self, edges: EdgeSet) {
    }

    fn terminate(&mut self) {
    }

    fn next_event(&mut self) -> (r: Option<FileDropEvent>)
        ensures
            r is None,
    {
        None
    }
}

/// Ways to detect drags.
#[derive(Clone, Copy, PartialEq, Eq, Structural, Debug)]
pub enum FileDropBackend {
    /// None; always available.
    Dummy,
    /// Surfaces along the edges, on Wayland compositors with a layer shell.
    LayerShellDataDevice,
    /// Windows along the edges, on Windows.
    WindowsOle,
}

impl FileDropBackend {
    /// The name of the backend.
    pub fn name(&self) -> (r: &'static str)
        ensures
            r@ == (match self {
                FileDropBackend::Dummy => "dummy"@,
                FileDropBackend::LayerShellDataDevice => "layer-shell-data-device"@,
                FileDropBackend::WindowsOle => "windows-ole"@,
            }),
    {
        match self {
            FileDropBackend::Dummy => "dummy",
            FileDropBackend::LayerShellDataDevice => "layer-shell-data-device",
            FileDropBackend::WindowsOle => "windows-ole",
        }
    }
}

/// The default backend: that of Windows there; that of the layer shell where the build has it
/// and a Wayland display is set; none elsewhere.
pub open spec fn detected_backend(
    windows: bool,
    has_layer_shell: bool,
    wayland_display: bool,
) -> FileDropBackend {
    if windows {
        FileDropBackend::WindowsOle
    } else if has_layer_shell && wayland_display {
        FileDropBackend::LayerShellDataDevice
    } else {
        FileDropBackend::Dummy
    }
}

/// The default backend of a system.
pub fn auto_detect_backend(windows: bool, has_layer_shell: bool, wayland_display: bool) -> (r:
    FileDropBackend)
    ensures
        r == detected_backend(windows, has_layer_shell, wayland_display),
{
    if windows {
        FileDropBackend::WindowsOle
    } else if has_layer_shell && wayland_display {
        FileDropBackend::LayerShellDataDevice
    } else {
        FileDropBackend::Dummy
    }
}

/// A source of any backend.
#[derive(Debug)]
pub enum AnySource {
    /// See [`DummyFileDropSource`].
    Dummy(DummyFileDropSource),
    /// See [`LayerShellDnd`].
    LayerShell(LayerShellDnd),
    /// See [`WindowsDropTarget`].
    Windows(WindowsDropTarget),
}

/// State of an [`AnySource`].
#[verifier::ext_equal]
pub enum AnySourceView {
    /// See [`AnySource::Dummy`].
    Dummy,
    /// See [`AnySource::LayerShell`].
    LayerShell(layer_shell::DndView),
    /// See [`AnySource::Windows`].
    Windows(windows::DropTargetView),
}

impl View for AnySource {
    type V = AnySourceView;

    open spec fn view(&self) -> AnySourceView {
        match self {
            AnySource::Dummy(_) => AnySourceView::Dummy,
            AnySource::LayerShell(s) => AnySourceView::LayerShell(s@),
            AnySource::Windows(s) => AnySourceView::Windows(s@),
        }
    }
}

/// A source is told which edges border a client: drop zones follow them, as far as it has any.
pub open spec fn edges_told(s: AnySourceView, edges: EdgeSet) -> AnySourceView {
    match s {
        AnySourceView::Dummy => AnySourceView::Dummy,
        AnySourceView::LayerShell(d) => AnySourceView::LayerShell(
            layer_shell::edges_changed(d, edges),
        ),
        AnySourceView::Windows(t) => AnySourceView::Windows(windows::edges_changed(t, edges)),
    }
}

/// A source is shut down: its drop zones are taken down, as far as it has any.
pub open spec fn shut_down(s: AnySourceView) -> AnySourceView {
    match s {
        AnySourceView::Dummy => AnySourceView::Dummy,
        AnySourceView::LayerShell(d) => AnySourceView::LayerShell(layer_shell::terminated(d)),
        AnySourceView::Windows(t) => AnySourceView::Windows(windows::terminated(t)),
    }
}

impl FileDropSource for AnySource {
    open spec fn queued(&self) -> Seq<FileDropEventView> {
        match self {
            AnySource::Dummy(s) => s.queued(),
            AnySource::LayerShell(s) => s.queued(),
            AnySource::Windows(s) => s.queued(),
        }
    }

    fn set_active_edges(&mut self, edges: EdgeSet)
        ensures
            final(self)@ == edges_told(old(self)@, edges),
    {
        match self {
            AnySource::Dummy(s) => s.set_active_edges(edges),
            AnySource::LayerShell(s) => s.set_active_edges(edges),
            AnySource::Windows(s) => s.set_active_edges(edges),
        }
    }

    fn terminate(&mut self)
        ensures
            final(self)@ == shut_down(old(self)@),
    {
        match self {
            AnySource::Dummy(s) => s.terminate(),
            AnySource::LayerShell(s) => s.terminate(),
            AnySource::Windows(s) => s.terminate(),
        }
    }

    fn next_event(&mut self) -> (r: Option<FileDropEvent>) {
        match self {
            AnySource::Dummy(s) => s.next_event(),
            AnySource::LayerShell(s) => s.next_event(),
            AnySource::Windows(s) => s.next_event(),
        }
    }
}

/// The source of a backend, or of the detected one. A backend that could not be started is
/// replaced by the one without drop zones.
pub fn file_drop_source(
    backend: Option<FileDropBackend>,
    detected: FileDropBackend,
    layer_shell: Option<LayerShellDnd>,
    windows: Option<WindowsDropTarget>,
) -> (r: AnySource)
    ensures
        match (if backend is Some { backend->0 } else { detected }) {
            FileDropBackend::Dummy => r is Dummy,
            FileDropBackend::LayerShellDataDevice => match layer_shell {
                Some(s) => r == AnySource::LayerShell(s),
                None => r is Dummy,
            },
            FileDropBackend::WindowsOle => match windows {
                Some(s) => r == AnySource::Windows(s),
                None => r is Dummy,
            },
        },
{
    let chosen: FileDropBackend = match backend {
        Some(b) => b,
        None => detected,
    };
    match chosen {
        FileDropBackend::Dummy => AnySource::Dummy(DummyFileDropSource {  }),
        FileDropBackend::LayerShellDataDevice => match layer_shell {
            Some(s) => AnySource::LayerShell(s),
            None => AnySource::Dummy(DummyFileDropSource {  }),
        },
        FileDropBackend::WindowsOle => match windows {
            Some(s) => AnySource::Windows(s),
            None => AnySource::Dummy(DummyFileDropSource {  }),
        },
    }
}

/// A source without drop zones has no events, whatever it is told.
pub proof fn law_dummy_is_silent(s: DummyFileDropSource)
    ensures
        s.queued().len() == 0,
{
}

/// An edge that is put into a set is in it, one that is taken out is not, and no other edge is
/// affected.
pub proof fn law_edge_set(s: EdgeSet, p: Position, q: Position)
    ensures
        s.with(p).has(q) == (q == p || s.has(q)),
        s.without(p).has(q) == (q != p && s.has(q)),
{
}

/// What is put at an edge is there and nowhere else; what is found at an edge is there.
pub proof fn law_per_edge(s: PerEdge, p: Position, q: Position, id: Option<u64>, x: u64)
    ensures
        s.with(p, id).at(q) == if q == p {
            id
        } else {
            s.at(q)
        },
        no_edges().at(p) is None,
        s.edge_of(x) matches Some(e) ==> s.at(e) == Some(x),
        s.edge_of(x) is None ==> s.at(p) != Some(x),
{
}

/// Events are handed out in the order in which they came, each once.
pub proof fn law_events_in_order(q: Seq<FileDropEventView>, e: FileDropEventView)
    ensures
        front(seq![e] + q) == Some(e),
        behind_front(seq![e] + q) == q,
        front(Seq::empty()) is None,
        behind_front(Seq::empty()).len() == 0,
{
    assert((seq![e] + q).skip(1) =~= q);
}

/// On Windows the backend of Windows is taken, elsewhere that of the layer shell where it is built
/// in and there is a display for it, and none where not.
pub proof fn law_backend(has_layer_shell: bool, wayland_display: bool)
    ensures
        detected_backend(true, has_layer_shell, wayland_display) == FileDropBackend::WindowsOle,
        detected_backend(false, true, true) == FileDropBackend::LayerShellDataDevice,
        !has_layer_shell || !wayland_display ==> detected_backend(
            false,
            has_layer_shell,
            wayland_display,
        ) == FileDropBackend::Dummy,
{
}

/// The log tells of each event the edge and, where there are files, their number.
pub proof fn law_event_text(p: Position, paths: Seq<Seq<char>>)
    ensures
        ipc::position_name(p).is_suffix_of(event_text(FileDropEventView::Entered(p))),
        ipc::position_name(p).is_suffix_of(event_text(FileDropEventView::Cancelled(p))),
        ({
            let end = ipc::position_name(p) + " ("@ + text::dec(paths.len()) + " paths)"@;
            &&& end.is_suffix_of(event_text(FileDropEventView::Dropped { position: p, paths }))
            &&& end.is_suffix_of(event_text(FileDropEventView::DragStarted { position: p, paths }))
            &&& end.is_suffix_of(
                event_text(FileDropEventView::DragEndedEarly { position: p, paths }),
            )
        }),
{
    let n = ipc::position_name(p);
    let end = n + " ("@ + text::dec(paths.len()) + " paths)"@;
    let a = event_text(FileDropEventView::Entered(p));
    let b = event_text(FileDropEventView::Cancelled(p));
    assert(a.subrange(a.len() - n.len(), a.len() as int) =~= n);
    assert(b.subrange(b.len() - n.len(), b.len() as int) =~= n);
    let c = event_text(FileDropEventView::Dropped { position: p, paths });
    let d = event_text(FileDropEventView::DragStarted { position: p, paths });
    let e = event_text(FileDropEventView::DragEndedEarly { position: p, paths });
    assert(c.subrange(c.len() - end.len(), c.len() as int) =~= end);
    assert(d.subrange(d.len() - end.len(), d.len() as int) =~= end);
    assert(e.subrange(e.len() - end.len(), e.len() as int) =~= end);
}

/// A source hands what it is told on to its backend, whichever it has.
pub proof fn law_source_is_told(
    d: layer_shell::DndView,
    t: windows::DropTargetView,
    edges: EdgeSet,
)
    ensures
        edges_told(AnySourceView::Dummy, edges) is Dummy,
        edges_told(AnySourceView::LayerShell(d), edges) == AnySourceView::LayerShell(
            layer_shell::edges_changed(d, edges),
        ),
        edges_told(AnySourceView::Windows(t), edges) == AnySourceView::Windows(
            windows::edges_changed(t, edges),
        ),
        shut_down(AnySourceView::LayerShell(d)) == AnySourceView::LayerShell(
            layer_shell::terminated(d),
        ),
        shut_down(AnySourceView::Windows(t)) == AnySourceView::Windows(windows::terminated(t)),
{
}

} // verus!
