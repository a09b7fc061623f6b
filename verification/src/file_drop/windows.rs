//! Drop zones on Windows: thin windows along the edges that take drags of files.
use crate::file_drop::{
    EdgeSet, FileDropEvent, FileDropEventView, FileDropSource, PerEdge, pop_front, push_event,
};
use crate::ipc::Position;
use crate::{file_drop, text};
use vstd::prelude::*;

verus! {

/// Thickness of the windows in pixels.
pub const STRIP: i32 = 2;

/// What the thread of the windows is told.
#[derive(Clone, Copy, PartialEq, Eq, Structural, Debug)]
pub enum ThreadSignal {
    /// The edges changed.
    ReconcileEdges,
    /// Exit.
    Exit,
}

/// The number by which a signal is posted.
pub open spec fn signal_number(s: ThreadSignal) -> usize {
    match s {
        ThreadSignal::ReconcileEdges => 1,
        ThreadSignal::Exit => 2,
    }
}

impl ThreadSignal {
    /// The number by which the signal is posted.
    pub fn number(&self) -> (r: usize)
        ensures
            r == signal_number(*self),
    {
        match self {
            ThreadSignal::ReconcileEdges => 1,
            ThreadSignal::Exit => 2,
        }
    }
}

/// What the thread does with a message.
#[derive(Clone, Copy, PartialEq, Eq, Structural, Debug)]
pub enum MessageAction {
    /// Make the windows match the edges.
    Reconcile,
    /// Leave the loop.
    Quit,
    /// Nothing.
    Ignore,
    /// Hand it on to its window.
    Dispatch,
}

/// What the thread does with a message: one to the thread itself is a signal.
pub fn on_message(to_thread: bool, is_user: bool, number: usize) -> (r: MessageAction)
    ensures
        r == (if !(to_thread && is_user) {
            MessageAction::Dispatch
        } else if number == signal_number(ThreadSignal::ReconcileEdges) {
            MessageAction::Reconcile
        } else if number == signal_number(ThreadSignal::Exit) {
            MessageAction::Quit
        } else {
            MessageAction::Ignore
        }),
{
    if !(to_thread && is_user) {
        MessageAction::Dispatch
    } else if number == 1 {
        MessageAction::Reconcile
    } else if number == 2 {
        MessageAction::Quit
    } else {
        MessageAction::Ignore
    }
}

// ----- the service's side ---------------------------------------------------

/// State on the side of the service.
#[verifier::ext_equal]
pub struct DropTargetView {
    /// Edges that border a client.
    pub active: EdgeSet,
    /// Events that have not been handed out.
    pub queue: Seq<FileDropEventView>,
    /// Signals that have not been posted.
    pub signals: Seq<ThreadSignal>,
}

/// The edges that border a client change: the thread is told.
pub open spec fn edges_changed(s: DropTargetView, edges: EdgeSet) -> DropTargetView {
    if s.active == edges {
        s
    } else {
        DropTargetView {
            active: edges,
            signals: s.signals.push(ThreadSignal::ReconcileEdges),
            ..s
        }
    }
}

/// Everything is taken down: the thread is told to end.
pub open spec fn terminated(s: DropTargetView) -> DropTargetView {
    DropTargetView { signals: s.signals.push(ThreadSignal::Exit), ..s }
}

/// Drop zones on Windows, on the side of the service.
#[derive(Debug)]
pub struct WindowsDropTarget {
    active_edges: EdgeSet,
    queue: Vec<FileDropEvent>,
    signals: Vec<ThreadSignal>,
}

impl View for WindowsDropTarget {
    type V = DropTargetView;

    closed spec fn view(&self) -> DropTargetView {
        DropTargetView {
            active: self.active_edges,
            queue: file_drop::drop_views(self.queue@),
            signals: self.signals@,
        }
    }
}

/// The drop zones, where their thread runs.
pub fn try_start(thread_runs: bool) -> (r: Option<WindowsDropTarget>)
    ensures
        r is Some == thread_runs,
        thread_runs ==> r->0@ == (DropTargetView {
            active: EdgeSet { left: false, right: false, top: false, bottom: false },
            queue: Seq::empty(),
            signals: Seq::empty(),
        }),
{
    if !thread_runs {
        return None;
    }
    let r: WindowsDropTarget = WindowsDropTarget {
        active_edges: EdgeSet::new(),
        queue: Vec::new(),
        signals: Vec::new(),
    };
    assert(r@.queue =~= Seq::empty());
    Some(r)
}

impl WindowsDropTarget {
    /// Takes an event of the thread.
    pub fn push(&mut self, e: FileDropEvent)
        ensures
            final(self)@ == (DropTargetView { queue: old(self)@.queue.push(e@), ..old(self)@ }),
    {
        push_event(&mut self.queue, e);
        assert(self@ =~= DropTargetView { queue: old(self)@.queue.push(e@), ..old(self)@ });
    }

    /// The edges that border a client.
    pub fn active_edges(&self) -> (r: EdgeSet)
        ensures
            r == self@.active,
    {
        self.active_edges
    }

    /// Hands out the signals that are to be posted.
    pub fn take_signals(&mut self) -> (r: Vec<ThreadSignal>)
        ensures
            r@ == old(self)@.signals,
            final(self)@ == (DropTargetView { signals: Seq::empty(), ..old(self)@ }),
    {
        let mut r: Vec<ThreadSignal> = Vec::new();
        r.append(&mut self.signals);
        assert(r@ =~= old(self)@.signals);
        assert(self@ =~= DropTargetView { signals: Seq::empty(), ..old(self)@ });
        r
    }
}

impl FileDropSource for WindowsDropTarget {
    open spec fn queued(&self) -> Seq<FileDropEventView> {
        self@.queue
    }

    fn set_active_edges(&mut self, edges: EdgeSet)
        ensures
            final(self)@ == edges_changed(old(self)@, edges),
    {
        if self.active_edges == edges {
            return;
        }
        self.active_edges = edges;
        self.signals.push(ThreadSignal::ReconcileEdges);
    }

    fn terminate(&mut self)
        ensures
            final(self)@ == terminated(old(self)@),
    {
        self.signals.push(ThreadSignal::Exit);
    }

    fn next_event(&mut self) -> (r: Option<FileDropEvent>)
        ensures
            final(self)@ == (DropTargetView {
                queue: file_drop::behind_front(old(self)@.queue),
                ..old(self)@
            }),
    {
        pop_front(&mut self.queue)
    }
}

// ----- the thread's side ----------------------------------------------------

/// What the thread does with its windows.
#[derive(Clone, Copy, PartialEq, Eq, Structural, Debug)]
pub enum WindowAction {
    /// Take a window down.
    Destroy(u64),
    /// Make a window along an edge.
    Create(Position),
}

/// The window of an edge is taken down where the edge borders no client.
pub open spec fn stale_removed(w: PerEdge, wanted: EdgeSet, pos: Position) -> (
    PerEdge,
    Seq<WindowAction>,
) {
    match w.at(pos) {
        Some(id) if !wanted.has(pos) => (w.with(pos, None), seq![WindowAction::Destroy(id)]),
        _ => (w, Seq::empty()),
    }
}

/// A window is made at an edge that borders a client and has none.
pub open spec fn missing_window(w: PerEdge, wanted: EdgeSet, pos: Position) -> Seq<WindowAction> {
    if wanted.has(pos) && w.at(pos) is None {
        seq![WindowAction::Create(pos)]
    } else {
        Seq::empty()
    }
}

/// The windows that are kept, and what makes them match the edges.
pub open spec fn windows_reconciled(w: PerEdge, wanted: EdgeSet) -> (PerEdge, Seq<WindowAction>) {
    let r1 = stale_removed(w, wanted, Position::Left);
    let r2 = stale_removed(r1.0, wanted, Position::Right);
    let r3 = stale_removed(r2.0, wanted, Position::Top);
    let r4 = stale_removed(r3.0, wanted, Position::Bottom);
    (
        r4.0,
        r1.1 + r2.1 + r3.1 + r4.1 + missing_window(r4.0, wanted, Position::Left)
            + missing_window(r4.0, wanted, Position::Right) + missing_window(
            r4.0,
            wanted,
            Position::Top,
        ) + missing_window(r4.0, wanted, Position::Bottom),
    )
}

fn remove_stale(w: &mut PerEdge, wanted: EdgeSet, pos: Position, out: &mut Vec<WindowAction>)
    ensures
        *final(w) == stale_removed(*old(w), wanted, pos).0,
        final(out)@ == old(out)@ + stale_removed(*old(w), wanted, pos).1,
{
    match w.get(pos) {
        Some(id) => {
            if !wanted.contains(pos) {
                w.set(pos, None);
                out.push(WindowAction::Destroy(id));
            }
        },
        None => {},
    }
    assert(out@ =~= old(out)@ + stale_removed(*old(w), wanted, pos).1);
}

fn make_missing(w: &PerEdge, wanted: EdgeSet, pos: Position, out: &mut Vec<WindowAction>)
    ensures
        final(out)@ == old(out)@ + missing_window(*w, wanted, pos),
{
    if wanted.contains(pos) && w.get(pos).is_none() {
        out.push(WindowAction::Create(pos));
    }
    assert(out@ =~= old(out)@ + missing_window(*w, wanted, pos));
}

/// Makes the windows match the edges. A window that is made is then put at its edge; one that
/// cannot be made is left out.
pub fn reconcile(windows: &mut PerEdge, wanted: EdgeSet) -> (r: Vec<WindowAction>)
    ensures
        (*final(windows), r@) == windows_reconciled(*old(windows), wanted),
{
    let mut out: Vec<WindowAction> = Vec::new();
    remove_stale(windows, wanted, Position::Left, &mut out);
    remove_stale(windows, wanted, Position::Right, &mut out);
    remove_stale(windows, wanted, Position::Top, &mut out);
    remove_stale(windows, wanted, Position::Bottom, &mut out);
    make_missing(windows, wanted, Position::Left, &mut out);
    make_missing(windows, wanted, Position::Right, &mut out);
    make_missing(windows, wanted, Position::Top, &mut out);
    make_missing(windows, wanted, Position::Bottom, &mut out);
    assert(out@ =~= windows_reconciled(*old(windows), wanted).1);
    out
}

/// A rectangle on the screen.
#[derive(Clone, Copy, PartialEq, Eq, Structural, Debug)]
pub struct Rect {
    /// Left side.
    pub x: i32,
    /// Top side.
    pub y: i32,
    /// Width.
    pub width: i32,
    /// Height.
    pub height: i32,
}

/// Where the window of an edge lies on a screen of a size.
pub open spec fn strip_of(pos: Position, screen_w: i32, screen_h: i32) -> Rect {
    match pos {
        Position::Left => Rect { x: 0, y: 0, width: STRIP, height: screen_h },
        Position::Right => Rect {
            x: (screen_w - STRIP) as i32,
            y: 0,
            width: STRIP,
            height: screen_h,
        },
        Position::Top => Rect { x: 0, y: 0, width: screen_w, height: STRIP },
        Position::Bottom => Rect {
            x: 0,
            y: (screen_h - STRIP) as i32,
            width: screen_w,
            height: STRIP,
        },
    }
}

/// Where the window of an edge lies on a screen of a size.
pub fn edge_strip(pos: Position, screen_w: i32, screen_h: i32) -> (r: Rect)
    requires
        screen_w - STRIP >= i32::MIN,
        screen_h - STRIP >= i32::MIN,
    ensures
        r == strip_of(pos, screen_w, screen_h),
{
    match pos {
        Position::Left => Rect { x: 0, y: 0, width: STRIP, height: screen_h },
        Position::Right => Rect { x: screen_w - STRIP, y: 0, width: STRIP, height: screen_h },
        Position::Top => Rect { x: 0, y: 0, width: screen_w, height: STRIP },
        Position::Bottom => Rect { x: 0, y: screen_h - STRIP, width: screen_w, height: STRIP },
    }
}

/// What a drag is told it would do.
#[derive(Clone, Copy, PartialEq, Eq, Structural, Debug)]
pub enum DropEffect {
    /// Nothing.
    Refuse,
    /// Copy.
    Copy,
}

/// A drag enters the window of an edge: one with files is taken and reported.
pub fn drag_enter(edge: Position, is_file: bool) -> (r: (DropEffect, Option<FileDropEvent>))
    ensures
        is_file ==> r.0 == DropEffect::Copy && file_drop::opt_drop_view(r.1) == Some(
            FileDropEventView::Entered(edge),
        ),
        !is_file ==> r.0 == DropEffect::Refuse && r.1 is None,
{
    if is_file {
        (DropEffect::Copy, Some(FileDropEvent::Entered(edge)))
    } else {
        (DropEffect::Refuse, None)
    }
}

/// A drag moves over the window of an edge.
pub fn drag_over() -> (r: DropEffect)
    ensures
        r == DropEffect::Copy,
{
    DropEffect::Copy
}

/// A drag leaves the window of an edge.
pub fn drag_leave(edge: Position) -> (r: FileDropEvent)
    ensures
        r@ == FileDropEventView::Cancelled(edge),
{
    FileDropEvent::Cancelled(edge)
}

/// Files are dropped on the window of an edge; a drop without files is refused.
pub fn drop_files(edge: Position, paths: Vec<String>) -> (r: (DropEffect, Option<FileDropEvent>))
    ensures
        paths@.len() == 0 ==> r.0 == DropEffect::Refuse && r.1 is None,
        paths@.len() > 0 ==> r.0 == DropEffect::Copy && file_drop::opt_drop_view(r.1) == Some(
            FileDropEventView::Dropped { position: edge, paths: text::views(paths@) },
        ),
{
    if paths.len() == 0 {
        (DropEffect::Refuse, None)
    } else {
        (DropEffect::Copy, Some(FileDropEvent::Dropped { position: edge, paths }))
    }
}

/// A name out of a list of dropped files, given the length that was announced and the characters
/// that were copied; one that is empty or could not be copied is left out.
pub fn dropped_name(needed: u32, copied: u32, buffer: Vec<u16>) -> (r: Option<Vec<u16>>)
    ensures
        needed == 0 || copied == 0 ==> r is None,
        needed > 0 && copied > 0 ==> r is Some && r->0@ == (if copied < buffer@.len() {
            buffer@.take(copied as int)
        } else {
            buffer@
        }),
{
    if needed == 0 || copied == 0 {
        return None;
    }
    let mut name: Vec<u16> = buffer;
    name.truncate(copied as usize);
    Some(name)
}

// ----- laws -----------------------------------------------------------------

/// No window is left at an edge that borders no client, every other window is kept, and a window
/// is made at exactly the edges that border a client and have none.
pub proof fn law_windows_follow_edges(w: PerEdge, wanted: EdgeSet, pos: Position)
    ensures
        ({
            let t = windows_reconciled(w, wanted);
            &&& t.0.at(pos) == (if wanted.has(pos) {
                w.at(pos)
            } else {
                None
            })
            &&& t.1.contains(WindowAction::Create(pos)) <==> (wanted.has(pos) && w.at(
                pos,
            ) is None)
        }),
{
    let r1 = stale_removed(w, wanted, Position::Left);
    let r2 = stale_removed(r1.0, wanted, Position::Right);
    let r3 = stale_removed(r2.0, wanted, Position::Top);
    let r4 = stale_removed(r3.0, wanted, Position::Bottom);
    let m1 = missing_window(r4.0, wanted, Position::Left);
    let m2 = missing_window(r4.0, wanted, Position::Right);
    let m3 = missing_window(r4.0, wanted, Position::Top);
    let m4 = missing_window(r4.0, wanted, Position::Bottom);
    let c = WindowAction::Create(pos);
    let a = r1.1 + r2.1 + r3.1 + r4.1;
    lemma_concat_contains(r1.1, r2.1, c);
    lemma_concat_contains(r1.1 + r2.1, r3.1, c);
    lemma_concat_contains(r1.1 + r2.1 + r3.1, r4.1, c);
    lemma_concat_contains(a, m1, c);
    lemma_concat_contains(a + m1, m2, c);
    lemma_concat_contains(a + m1 + m2, m3, c);
    lemma_concat_contains(a + m1 + m2 + m3, m4, c);
    lemma_missing_contains(r4.0, wanted, Position::Left, c);
    lemma_missing_contains(r4.0, wanted, Position::Right, c);
    lemma_missing_contains(r4.0, wanted, Position::Top, c);
    lemma_missing_contains(r4.0, wanted, Position::Bottom, c);
}

proof fn lemma_concat_contains(a: Seq<WindowAction>, b: Seq<WindowAction>, x: WindowAction)
    ensures
        (a + b).contains(x) <==> a.contains(x) || b.contains(x),
{
    if a.contains(x) {
        let i = choose|i: int| 0 <= i < a.len() && a[i] == x;
        assert((a + b)[i] == x);
    }
    if b.contains(x) {
        let i = choose|i: int| 0 <= i < b.len() && b[i] == x;
        assert((a + b)[a.len() + i] == x);
    }
}

proof fn lemma_missing_contains(w: PerEdge, wanted: EdgeSet, pos: Position, x: WindowAction)
    ensures
        missing_window(w, wanted, pos).contains(x) <==> wanted.has(pos) && w.at(pos) is None && x
            == WindowAction::Create(pos),
{
    let m = missing_window(w, wanted, pos);
    if wanted.has(pos) && w.at(pos) is None {
        assert(m[0] == WindowAction::Create(pos));
    }
}

/// On a screen that is large enough, the window of an edge lies on the screen and touches its
/// edge.
pub proof fn law_strip_on_screen(pos: Position, screen_w: i32, screen_h: i32)
    requires
        screen_w >= STRIP,
        screen_h >= STRIP,
    ensures
        ({
            let r = strip_of(pos, screen_w, screen_h);
            &&& 0 <= r.x && r.x + r.width <= screen_w
            &&& 0 <= r.y && r.y + r.height <= screen_h
            &&& pos == Position::Left ==> r.x == 0
            &&& pos == Position::Right ==> r.x + r.width == screen_w
            &&& pos == Position::Top ==> r.y == 0
            &&& pos == Position::Bottom ==> r.y + r.height == screen_h
        }),
{
}

/// Other edges are taken and the thread is told, once; the same edges again are not worth a word. The
/// end is told whatever the edges are.
pub proof fn law_thread_is_told(s: DropTargetView, edges: EdgeSet)
    ensures
        s.active == edges ==> edges_changed(s, edges) == s,
        s.active != edges ==> edges_changed(s, edges) == (DropTargetView {
            active: edges,
            queue: s.queue,
            signals: s.signals.push(ThreadSignal::ReconcileEdges),
        }),
        terminated(s) == (DropTargetView {
            active: s.active,
            queue: s.queue,
            signals: s.signals.push(ThreadSignal::Exit),
        }),
        signal_number(ThreadSignal::ReconcileEdges) != signal_number(ThreadSignal::Exit),
{
}

/// A window at an edge that borders no client any more is taken down.
pub proof fn law_stale_window_is_taken_down(w: PerEdge, wanted: EdgeSet, pos: Position, id: u64)
    requires
        w.at(pos) == Some(id),
        !wanted.has(pos),
    ensures
        windows_reconciled(w, wanted).1.contains(WindowAction::Destroy(id)),
{
    let r1 = stale_removed(w, wanted, Position::Left);
    let r2 = stale_removed(r1.0, wanted, Position::Right);
    let r3 = stale_removed(r2.0, wanted, Position::Top);
    let r4 = stale_removed(r3.0, wanted, Position::Bottom);
    let all = windows_reconciled(w, wanted).1;
    let k = match pos {
        Position::Left => 0,
        Position::Right => r1.1.len() as int,
        Position::Top => (r1.1.len() + r2.1.len()) as int,
        Position::Bottom => (r1.1.len() + r2.1.len() + r3.1.len()) as int,
    };
    assert(all[k] == WindowAction::Destroy(id));
}

/// The window of an edge runs along all of it and is as thin as the strip.
pub proof fn law_strip_spans_edge(screen_w: i32, screen_h: i32)
    ensures
        strip_of(Position::Left, screen_w, screen_h).height == screen_h,
        strip_of(Position::Right, screen_w, screen_h).height == screen_h,
        strip_of(Position::Top, screen_w, screen_h).width == screen_w,
        strip_of(Position::Bottom, screen_w, screen_h).width == screen_w,
        strip_of(Position::Left, screen_w, screen_h).width == STRIP,
        strip_of(Position::Right, screen_w, screen_h).width == STRIP,
        strip_of(Position::Top, screen_w, screen_h).height == STRIP,
        strip_of(Position::Bottom, screen_w, screen_h).height == STRIP,
{
}

} // verus!
