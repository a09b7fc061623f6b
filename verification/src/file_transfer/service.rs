//! The dispatcher of all transfers: it numbers them, routes decisions, and reports how they end.
use crate::collections::IdSet;
use crate::file_transfer::receiver::{RecvOutcome, RecvOutcomeView};
use crate::file_transfer::{
    Command, CommandView, Decision, DecisionView, Event, EventView, TransferResult,
    TransferResultView,
};
use crate::net::SocketAddr;
use vstd::prelude::*;

verus! {

/// How an outgoing transfer ended.
#[derive(Debug)]
pub enum SendEnd {
    /// The receiver took everything; holds the root that was sent.
    Sent(String),
    /// The transfer was cancelled.
    Cancelled,
    /// It failed, with the reason.
    Failed(String),
}

/// Contents of a [`SendEnd`].
#[verifier::ext_equal]
pub enum SendEndView {
    /// See [`SendEnd::Sent`].
    Sent(Seq<char>),
    /// See [`SendEnd::Cancelled`].
    Cancelled,
    /// See [`SendEnd::Failed`].
    Failed(Seq<char>),
}

impl View for SendEnd {
    type V = SendEndView;

    open spec fn view(&self) -> SendEndView {
        match self {
            SendEnd::Sent(p) => SendEndView::Sent(p@),
            SendEnd::Cancelled => SendEndView::Cancelled,
            SendEnd::Failed(e) => SendEndView::Failed(e@),
        }
    }
}

/// How an incoming transfer ended.
#[derive(Debug)]
pub enum RecvEnd {
    /// It came to an end of its own.
    Ended(RecvOutcome),
    /// It failed, with the reason.
    Failed(String),
}

/// Contents of a [`RecvEnd`].
#[verifier::ext_equal]
pub enum RecvEndView {
    /// See [`RecvEnd::Ended`].
    Ended(RecvOutcomeView),
    /// See [`RecvEnd::Failed`].
    Failed(Seq<char>),
}

impl View for RecvEnd {
    type V = RecvEndView;

    open spec fn view(&self) -> RecvEndView {
        match self {
            RecvEnd::Ended(o) => RecvEndView::Ended(o@),
            RecvEnd::Failed(e) => RecvEndView::Failed(e@),
        }
    }
}

/// The event that reports the end of an outgoing transfer.
pub open spec fn send_finished_of(xfer_id: u64, end: SendEndView) -> EventView {
    EventView::Finished {
        xfer_id,
        result: match end {
            SendEndView::Sent(p) => TransferResultView::Done { destination: p },
            SendEndView::Cancelled => TransferResultView::Cancelled,
            SendEndView::Failed(e) => TransferResultView::Error(e),
        },
    }
}

/// Reports the end of an outgoing transfer.
pub fn send_finished(xfer_id: u64, end: SendEnd) -> (r: Event)
    ensures
        r@ == send_finished_of(xfer_id, end@),
{
    let result: TransferResult = match end {
        SendEnd::Sent(destination) => TransferResult::Done { destination },
        SendEnd::Cancelled => TransferResult::Cancelled,
        SendEnd::Failed(e) => TransferResult::Error(e),
    };
    Event::Finished { xfer_id, result }
}

/// The event that reports the end of a clipboard hand-off: only a failure is reported.
pub open spec fn clipboard_finished_of(xfer_id: u64, error: Option<Seq<char>>) -> Option<EventView> {
    match error {
        Some(e) => Some(
            EventView::Finished { xfer_id, result: TransferResultView::Error(e) },
        ),
        None => None,
    }
}

/// Reports the end of an outgoing clipboard hand-off.
pub fn clipboard_finished(xfer_id: u64, error: Option<String>) -> (r: Option<Event>)
    ensures
        match r {
            Some(e) => clipboard_finished_of(xfer_id, crate::text::opt_view(error)) == Some(e@),
            None => clipboard_finished_of(xfer_id, crate::text::opt_view(error)) is None,
        },
{
    match error {
        Some(e) => Some(Event::Finished { xfer_id, result: TransferResult::Error(e) }),
        None => None,
    }
}

/// The event that reports the end of an incoming transfer: none for a clipboard, which has
/// already been reported.
pub open spec fn recv_finished_of(xfer_id: u64, end: RecvEndView) -> Option<EventView> {
    match end {
        RecvEndView::Ended(RecvOutcomeView::File(p)) => Some(
            EventView::Finished { xfer_id, result: TransferResultView::Done { destination: p } },
        ),
        RecvEndView::Ended(RecvOutcomeView::Cancelled) => Some(
            EventView::Finished { xfer_id, result: TransferResultView::Cancelled },
        ),
        RecvEndView::Ended(RecvOutcomeView::Clipboard) => None,
        RecvEndView::Failed(e) => Some(
            EventView::Finished { xfer_id, result: TransferResultView::Error(e) },
        ),
    }
}

/// Reports the end of an incoming transfer.
pub fn recv_finished(xfer_id: u64, end: RecvEnd) -> (r: Option<Event>)
    ensures
        match r {
            Some(e) => recv_finished_of(xfer_id, end@) == Some(e@),
            None => recv_finished_of(xfer_id, end@) is None,
        },
{
    match end {
        RecvEnd::Ended(RecvOutcome::File(destination)) => Some(
            Event::Finished { xfer_id, result: TransferResult::Done { destination } },
        ),
        RecvEnd::Ended(RecvOutcome::Cancelled) => Some(
            Event::Finished { xfer_id, result: TransferResult::Cancelled },
        ),
        RecvEnd::Ended(RecvOutcome::Clipboard) => None,
        RecvEnd::Failed(e) => Some(Event::Finished { xfer_id, result: TransferResult::Error(e) }),
    }
}

/// The contents of an optional event.
pub open spec fn opt_event_view(e: Option<Event>) -> Option<EventView> {
    match e {
        Some(e) => Some(e@),
        None => None,
    }
}

// ----- dispatch -------------------------------------------------------------

/// What happens at the dispatcher.
#[derive(Debug)]
pub enum DispatchInput {
    /// A command; `None` when no more can come.
    Command(Option<Command>),
    /// A connection; `false` when the listener is closed.
    Incoming(bool),
    /// An outgoing transfer ended.
    Sent {
        /// Number of the transfer.
        xfer_id: u64,
        /// How it ended.
        end: SendEnd,
    },
    /// An outgoing clipboard hand-off ended.
    ClipboardSent {
        /// Number of the transfer.
        xfer_id: u64,
        /// Why it failed, where it did.
        error: Option<String>,
    },
    /// An incoming transfer ended.
    Received {
        /// Number of the transfer.
        xfer_id: u64,
        /// How it ended.
        outcome: RecvEnd,
    },
}

/// Contents of a [`DispatchInput`].
#[verifier::ext_equal]
pub enum DispatchInputView {
    /// See [`DispatchInput::Command`].
    Command(Option<CommandView>),
    /// See [`DispatchInput::Incoming`].
    Incoming(bool),
    /// See [`DispatchInput::Sent`].
    Sent { xfer_id: u64, end: SendEndView },
    /// See [`DispatchInput::ClipboardSent`].
    ClipboardSent { xfer_id: u64, error: Option<Seq<char>> },
    /// See [`DispatchInput::Received`].
    Received { xfer_id: u64, outcome: RecvEndView },
}

impl View for DispatchInput {
    type V = DispatchInputView;

    open spec fn view(&self) -> DispatchInputView {
        match self {
            DispatchInput::Command(Some(c)) => DispatchInputView::Command(Some(c@)),
            DispatchInput::Command(None) => DispatchInputView::Command(None),
            DispatchInput::Incoming(b) => DispatchInputView::Incoming(*b),
            DispatchInput::Sent { xfer_id, end } => DispatchInputView::Sent {
                xfer_id: *xfer_id,
                end: end@,
            },
            DispatchInput::ClipboardSent { xfer_id, error } => DispatchInputView::ClipboardSent {
                xfer_id: *xfer_id,
                error: crate::text::opt_view(*error),
            },
            DispatchInput::Received { xfer_id, outcome } => DispatchInputView::Received {
                xfer_id: *xfer_id,
                outcome: outcome@,
            },
        }
    }
}

/// What the dispatcher asks for.
#[derive(Debug)]
pub enum DispatchAction {
    /// Start an outgoing transfer.
    StartSend {
        /// Number of the transfer.
        xfer_id: u64,
        /// Listener of the peer.
        target_addr: SocketAddr,
        /// Certificate fingerprint that the peer must show.
        target_fingerprint: String,
        /// File or directory to send.
        root: String,
    },
    /// Start a clipboard hand-off.
    StartSendClipboard {
        /// Number of the transfer.
        xfer_id: u64,
        /// Listener of the peer.
        target_addr: SocketAddr,
        /// Certificate fingerprint that the peer must show.
        target_fingerprint: String,
        /// Clipboard bytes.
        content: Vec<u8>,
    },
    /// Start receiving from the connection that came in.
    StartReceive {
        /// Number of the transfer.
        xfer_id: u64,
    },
    /// Hand a decision to a receiver that waits for one.
    Decide {
        /// Number of the transfer.
        xfer_id: u64,
        /// The decision.
        decision: Decision,
    },
    /// Stop a running transfer.
    AbortTask {
        /// Number of the transfer.
        xfer_id: u64,
    },
    /// Report an event.
    Emit(Event),
    /// Stop dispatching.
    Stop,
}

/// Contents of a [`DispatchAction`].
#[verifier::ext_equal]
pub enum DispatchActionView {
    /// See [`DispatchAction::StartSend`].
    StartSend {
        xfer_id: u64,
        target_addr: SocketAddr,
        target_fingerprint: Seq<char>,
        root: Seq<char>,
    },
    /// See [`DispatchAction::StartSendClipboard`].
    StartSendClipboard {
        xfer_id: u64,
        target_addr: SocketAddr,
        target_fingerprint: Seq<char>,
        content: Seq<u8>,
    },
    /// See [`DispatchAction::StartReceive`].
    StartReceive { xfer_id: u64 },
    /// See [`DispatchAction::Decide`].
    Decide { xfer_id: u64, decision: DecisionView },
    /// See [`DispatchAction::AbortTask`].
    AbortTask { xfer_id: u64 },
    /// See [`DispatchAction::Emit`].
    Emit(EventView),
    /// See [`DispatchAction::Stop`].
    Stop,
}

impl View for DispatchAction {
    type V = DispatchActionView;

    open spec fn view(&self) -> DispatchActionView {
        match self {
            DispatchAction::StartSend { xfer_id, target_addr, target_fingerprint, root } => {
                DispatchActionView::StartSend {
                    xfer_id: *xfer_id,
                    target_addr: *target_addr,
                    target_fingerprint: target_fingerprint@,
                    root: root@,
                }
            },
            DispatchAction::StartSendClipboard {
                xfer_id,
                target_addr,
                target_fingerprint,
                content,
            } => DispatchActionView::StartSendClipboard {
                xfer_id: *xfer_id,
                target_addr: *target_addr,
                target_fingerprint: target_fingerprint@,
                content: content@,
            },
            DispatchAction::StartReceive { xfer_id } => DispatchActionView::StartReceive {
                xfer_id: *xfer_id,
            },
            DispatchAction::Decide { xfer_id, decision } => DispatchActionView::Decide {
                xfer_id: *xfer_id,
                decision: decision@,
            },
            DispatchAction::AbortTask { xfer_id } => DispatchActionView::AbortTask {
                xfer_id: *xfer_id,
            },
            DispatchAction::Emit(e) => DispatchActionView::Emit(e@),
            DispatchAction::Stop => DispatchActionView::Stop,
        }
    }
}

/// The contents of a list of actions.
pub open spec fn dispatch_views(v: Seq<DispatchAction>) -> Seq<DispatchActionView> {
    Seq::new(v.len(), |i: int| v[i]@)
}

/// State of the dispatcher.
#[verifier::ext_equal]
pub struct DispatchView {
    /// Number of the next transfer.
    pub next_id: u64,
    /// Incoming transfers that have not been answered.
    pub pending: Set<u64>,
    /// Transfers that were started and have neither ended nor been cancelled.
    pub tasks: Set<u64>,
}

/// The state without transfers.
pub open spec fn new_dispatcher() -> DispatchView {
    DispatchView { next_id: 1, pending: Set::empty(), tasks: Set::empty() }
}

/// The number after this one; numbers start over behind the largest.
pub open spec fn following(id: u64) -> u64 {
    if id == u64::MAX {
        0
    } else {
        (id + 1) as u64
    }
}

/// The state after a transfer has been given the next number.
pub open spec fn started(s: DispatchView) -> DispatchView {
    DispatchView { next_id: following(s.next_id), tasks: s.tasks.insert(s.next_id), ..s }
}

/// The event that reports a transfer as cancelled.
pub open spec fn cancelled(xfer_id: u64) -> EventView {
    EventView::Finished { xfer_id, result: TransferResultView::Cancelled }
}

/// A transfer ends, with the event that reports it, where one does. The end of a transfer that
/// was cancelled has been reported already.
pub open spec fn ended(s: DispatchView, xfer_id: u64, event: Option<EventView>) -> (
    DispatchView,
    Seq<DispatchActionView>,
) {
    if s.tasks.contains(xfer_id) {
        (
            DispatchView {
                pending: s.pending.remove(xfer_id),
                tasks: s.tasks.remove(xfer_id),
                ..s
            },
            match event {
                Some(e) => seq![DispatchActionView::Emit(e)],
                None => Seq::empty(),
            },
        )
    } else {
        (s, Seq::empty())
    }
}

/// What a command does.
pub open spec fn on_command(s: DispatchView, c: CommandView) -> (
    DispatchView,
    Seq<DispatchActionView>,
) {
    match c {
        CommandView::SendPath { target_addr, target_fingerprint, root } => (
            started(s),
            seq![
                DispatchActionView::StartSend {
                    xfer_id: s.next_id,
                    target_addr,
                    target_fingerprint,
                    root,
                },
            ],
        ),
        CommandView::SendClipboard { target_addr, target_fingerprint, content } => (
            started(s),
            seq![
                DispatchActionView::StartSendClipboard {
                    xfer_id: s.next_id,
                    target_addr,
                    target_fingerprint,
                    content,
                },
            ],
        ),
        CommandView::RespondOffer { xfer_id, decision } => (
            DispatchView { pending: s.pending.remove(xfer_id), ..s },
            if s.pending.contains(xfer_id) {
                seq![DispatchActionView::Decide { xfer_id, decision }]
            } else {
                Seq::empty()
            },
        ),
        CommandView::Cancel { xfer_id } => (
            DispatchView {
                pending: s.pending.remove(xfer_id),
                tasks: s.tasks.remove(xfer_id),
                ..s
            },
            (if s.tasks.contains(xfer_id) {
                seq![DispatchActionView::AbortTask { xfer_id }]
            } else {
                Seq::empty()
            }) + (if s.pending.contains(xfer_id) {
                seq![DispatchActionView::Decide { xfer_id, decision: DecisionView::Decline }]
            } else {
                Seq::empty()
            }) + (if s.tasks.contains(xfer_id) {
                seq![DispatchActionView::Emit(cancelled(xfer_id))]
            } else {
                Seq::empty()
            }),
        ),
    }
}

/// What the dispatcher does.
pub open spec fn dispatched(s: DispatchView, input: DispatchInputView) -> (
    DispatchView,
    Seq<DispatchActionView>,
) {
    match input {
        DispatchInputView::Command(Some(c)) => on_command(s, c),
        DispatchInputView::Command(None) => (s, seq![DispatchActionView::Stop]),
        DispatchInputView::Incoming(false) => (s, seq![DispatchActionView::Stop]),
        DispatchInputView::Incoming(true) => (
            DispatchView { pending: s.pending.insert(s.next_id), ..started(s) },
            seq![DispatchActionView::StartReceive { xfer_id: s.next_id }],
        ),
        DispatchInputView::Sent { xfer_id, end } => ended(
            s,
            xfer_id,
            Some(send_finished_of(xfer_id, end)),
        ),
        DispatchInputView::ClipboardSent { xfer_id, error } => ended(
            s,
            xfer_id,
            clipboard_finished_of(xfer_id, error),
        ),
        DispatchInputView::Received { xfer_id, outcome } => ended(
            s,
            xfer_id,
            recv_finished_of(xfer_id, outcome),
        ),
    }
}

/// The dispatcher of all transfers.
#[derive(Debug)]
pub struct Dispatcher {
    next_id: u64,
    pending: IdSet,
    tasks: IdSet,
}

impl View for Dispatcher {
    type V = DispatchView;

    closed spec fn view(&self) -> DispatchView {
        DispatchView { next_id: self.next_id, pending: self.pending@, tasks: self.tasks@ }
    }
}

impl Dispatcher {
    /// Whether the dispatcher is in a state that its own steps lead to.
    pub closed spec fn wf(&self) -> bool {
        self.pending.wf() && self.tasks.wf()
    }

    /// A dispatcher without transfers; the first one gets number 1.
    pub fn new() -> (r: Dispatcher)
        ensures
            r.wf(),
            r@ == new_dispatcher(),
    {
        Dispatcher { next_id: 1, pending: IdSet::new(), tasks: IdSet::new() }
    }

    fn start(&mut self) -> (r: u64)
        requires
            old(self).wf(),
        ensures
            final(self).wf(),
            final(self)@ == started(old(self)@),
            r == old(self)@.next_id,
    {
        let id: u64 = self.next_id;
        self.next_id = if id == u64::MAX {
            0
        } else {
            id + 1
        };
        self.tasks.insert(id);
        id
    }

    fn command(&mut self, c: Command) -> (r: Vec<DispatchAction>)
        requires
            old(self).wf(),
        ensures
            final(self).wf(),
            (final(self)@, dispatch_views(r@)) == on_command(old(self)@, c@),
    {
        let mut r: Vec<DispatchAction> = Vec::new();
        match c {
            Command::SendPath { target_addr, target_fingerprint, root } => {
                let xfer_id: u64 = self.start();
                r.push(
                    DispatchAction::StartSend { xfer_id, target_addr, target_fingerprint, root },
                );
            },
            Command::SendClipboard { target_addr, target_fingerprint, content } => {
                let xfer_id: u64 = self.start();
                r.push(
                    DispatchAction::StartSendClipboard {
                        xfer_id,
                        target_addr,
                        target_fingerprint,
                        content,
                    },
                );
            },
            Command::RespondOffer { xfer_id, decision } => {
                if self.pending.remove(xfer_id) {
                    r.push(DispatchAction::Decide { xfer_id, decision });
                }
            },
            Command::Cancel { xfer_id } => {
                let running: bool = self.tasks.remove(xfer_id);
                if running {
                    r.push(DispatchAction::AbortTask { xfer_id });
                }
                if self.pending.remove(xfer_id) {
                    r.push(DispatchAction::Decide { xfer_id, decision: Decision::Decline });
                }
                if running {
                    let result: TransferResult = TransferResult::Cancelled;
                    r.push(DispatchAction::Emit(Event::Finished { xfer_id, result }));
                }
            },
        }
        assert(dispatch_views(r@) =~= on_command(old(self)@, c@).1);
        r
    }

    fn end(&mut self, xfer_id: u64, event: Option<Event>) -> (r: Vec<DispatchAction>)
        requires
            old(self).wf(),
        ensures
            final(self).wf(),
            (final(self)@, dispatch_views(r@)) == ended(
                old(self)@,
                xfer_id,
                opt_event_view(event),
            ),
    {
        let ghost view = opt_event_view(event);
        let mut r: Vec<DispatchAction> = Vec::new();
        if self.tasks.remove(xfer_id) {
            let _ = self.pending.remove(xfer_id);
            match event {
                Some(e) => r.push(DispatchAction::Emit(e)),
                None => {},
            }
        }
        proof {
            assert(self@ =~= ended(old(self)@, xfer_id, view).0);
            assert(dispatch_views(r@) =~= ended(old(self)@, xfer_id, view).1);
        }
        r
    }

    /// Takes what happened and says what is to be done.
    pub fn step(&mut self, input: DispatchInput) -> (r: Vec<DispatchAction>)
        requires
            old(self).wf(),
        ensures
            final(self).wf(),
            (final(self)@, dispatch_views(r@)) == dispatched(old(self)@, input@),
    {
        match input {
            DispatchInput::Command(Some(c)) => self.command(c),
            DispatchInput::Incoming(true) => {
                let xfer_id: u64 = self.start();
                self.pending.insert(xfer_id);
                let mut r: Vec<DispatchAction> = Vec::new();
                r.push(DispatchAction::StartReceive { xfer_id });
                assert(dispatch_views(r@) =~= dispatched(old(self)@, input@).1);
                r
            },
            DispatchInput::Sent { xfer_id, end } => {
                let event: Event = send_finished(xfer_id, end);
                self.end(xfer_id, Some(event))
            },
            DispatchInput::ClipboardSent { xfer_id, error } => {
                let event: Option<Event> = clipboard_finished(xfer_id, error);
                self.end(xfer_id, event)
            },
            DispatchInput::Received { xfer_id, outcome } => {
                let event: Option<Event> = recv_finished(xfer_id, outcome);
                self.end(xfer_id, event)
            },
            _ => {
                let mut r: Vec<DispatchAction> = Vec::new();
                r.push(DispatchAction::Stop);
                assert(dispatch_views(r@) =~= dispatched(old(self)@, input@).1);
                r
            },
        }
    }
}

// ----- laws -----------------------------------------------------------------

/// The state and all actions after a series of inputs.
pub open spec fn dispatch_run(s: DispatchView, inputs: Seq<DispatchInputView>) -> (
    DispatchView,
    Seq<DispatchActionView>,
)
    decreases inputs.len(),
{
    if inputs.len() == 0 {
        (s, Seq::empty())
    } else {
        let (s1, a) = dispatched(s, inputs[0]);
        let (s2, b) = dispatch_run(s1, inputs.skip(1));
        (s2, a + b)
    }
}

/// The number of the transfer that an action starts.
pub open spec fn starts(a: DispatchActionView) -> Option<u64> {
    match a {
        DispatchActionView::StartSend { xfer_id, .. } => Some(xfer_id),
        DispatchActionView::StartSendClipboard { xfer_id, .. } => Some(xfer_id),
        DispatchActionView::StartReceive { xfer_id } => Some(xfer_id),
        _ => None,
    }
}

/// Every number in use is below the next one.
pub open spec fn ids_below_next(s: DispatchView) -> bool {
    &&& forall|x: u64| s.pending.contains(x) ==> x < s.next_id
    &&& forall|x: u64| s.tasks.contains(x) ==> x < s.next_id
}

/// Numbers are handed out in ascending order, so no two transfers share one, as long as the
/// numbers have not started over.
pub proof fn law_transfer_ids_unique(
    s: DispatchView,
    inputs: Seq<DispatchInputView>,
    i: int,
    j: int,
)
    requires
        s.next_id + inputs.len() <= u64::MAX,
        0 <= i < j < dispatch_run(s, inputs).1.len(),
        starts(dispatch_run(s, inputs).1[i]) is Some,
        starts(dispatch_run(s, inputs).1[j]) is Some,
    ensures
        starts(dispatch_run(s, inputs).1[i])->0 < starts(dispatch_run(s, inputs).1[j])->0,
    decreases inputs.len(),
{
    let (s1, a) = dispatched(s, inputs[0]);
    let rest = inputs.skip(1);
    if i >= a.len() {
        law_transfer_ids_unique(s1, rest, i - a.len(), j - a.len());
    } else {
        assert(a.len() <= 3);
        assert(starts(a[i]) is Some);
        assert(a.len() == 1);
        lemma_started_ids_from(s1, rest, j - a.len());
    }
}

proof fn lemma_started_ids_from(s: DispatchView, inputs: Seq<DispatchInputView>, j: int)
    requires
        s.next_id + inputs.len() <= u64::MAX,
        0 <= j < dispatch_run(s, inputs).1.len(),
        starts(dispatch_run(s, inputs).1[j]) is Some,
    ensures
        s.next_id <= starts(dispatch_run(s, inputs).1[j])->0,
    decreases inputs.len(),
{
    let (s1, a) = dispatched(s, inputs[0]);
    if j >= a.len() {
        lemma_started_ids_from(s1, inputs.skip(1), j - a.len());
    } else {
        assert(a.len() <= 3);
    }
}

/// A decision is handed out only to a transfer that waits for one, and the transfer waits no
/// longer: an offer is answered at most once.
pub proof fn law_offer_answered_once(s: DispatchView, input: DispatchInputView, j: int)
    requires
        0 <= j < dispatched(s, input).1.len(),
        dispatched(s, input).1[j] is Decide,
    ensures
        s.pending.contains(dispatched(s, input).1[j]->Decide_xfer_id),
        !dispatched(s, input).0.pending.contains(dispatched(s, input).1[j]->Decide_xfer_id),
{
}

/// The number of the transfer that an action is about.
pub open spec fn concerns(a: DispatchActionView) -> Option<u64> {
    match a {
        DispatchActionView::AbortTask { xfer_id } => Some(xfer_id),
        DispatchActionView::Decide { xfer_id, .. } => Some(xfer_id),
        DispatchActionView::Emit(EventView::Finished { xfer_id, .. }) => Some(xfer_id),
        _ => starts(a),
    }
}

/// A cancelled transfer is stopped, and its offer, where it still waits, is declined. No other
/// transfer is affected.
pub proof fn law_cancel_stops(s: DispatchView, xfer_id: u64)
    ensures
        ({
            let (s2, a) = on_command(s, CommandView::Cancel { xfer_id });
            &&& !s2.tasks.contains(xfer_id) && !s2.pending.contains(xfer_id)
            &&& s.tasks.contains(xfer_id) ==> a.contains(DispatchActionView::AbortTask { xfer_id })
            &&& s.pending.contains(xfer_id) ==> a.contains(
                DispatchActionView::Decide { xfer_id, decision: DecisionView::Decline },
            )
            &&& s2.next_id == s.next_id
            &&& forall|other: u64|
                other != xfer_id ==> (s2.tasks.contains(other) <==> s.tasks.contains(other)) && (
                s2.pending.contains(other) <==> #[trigger] s.pending.contains(other))
            &&& forall|j: int| 0 <= j < a.len() ==> concerns(#[trigger] a[j]) == Some(xfer_id)
        }),
{
    let (s2, a) = on_command(s, CommandView::Cancel { xfer_id });
    if s.tasks.contains(xfer_id) {
        assert(a[0] == DispatchActionView::AbortTask { xfer_id });
        if s.pending.contains(xfer_id) {
            assert(a[1] == DispatchActionView::Decide {
                xfer_id,
                decision: DecisionView::Decline,
            });
        }
    } else if s.pending.contains(xfer_id) {
        assert(a[0] == DispatchActionView::Decide { xfer_id, decision: DecisionView::Decline });
    }
}

/// How a transfer is reported to have ended, each time that it is.
pub open spec fn results_of(actions: Seq<DispatchActionView>, x: u64) -> Seq<TransferResultView>
    decreases actions.len(),
{
    if actions.len() == 0 {
        Seq::empty()
    } else {
        (match actions[0] {
            DispatchActionView::Emit(EventView::Finished { xfer_id, result }) if xfer_id == x => {
                seq![result]
            },
            _ => Seq::empty(),
        }) + results_of(actions.skip(1), x)
    }
}

proof fn lemma_results_append(a: Seq<DispatchActionView>, b: Seq<DispatchActionView>, x: u64)
    ensures
        results_of(a + b, x) == results_of(a, x) + results_of(b, x),
    decreases a.len(),
{
    if a.len() == 0 {
        assert(a + b =~= b);
        assert(results_of(a, x) + results_of(b, x) =~= results_of(b, x));
    } else {
        assert((a + b).skip(1) =~= a.skip(1) + b);
        lemma_results_append(a.skip(1), b, x);
        assert(results_of(a + b, x) =~= results_of(a, x) + results_of(b, x));
    }
}

/// One step reports at most one end of a transfer, of one that runs, which then runs no more.
proof fn lemma_step_results(s: DispatchView, input: DispatchInputView, x: u64)
    ensures
        results_of(dispatched(s, input).1, x).len() <= 1,
        results_of(dispatched(s, input).1, x).len() == 1 ==> s.tasks.contains(x) && !dispatched(
            s,
            input,
        ).0.tasks.contains(x),
{
    reveal_with_fuel(results_of, 4);
    let a = dispatched(s, input).1;
    assert(a.len() <= 3);
    if a.len() >= 1 {
        assert(a.skip(1).len() == a.len() - 1);
        if a.len() >= 2 {
            assert(a.skip(1)[0] == a[1]);
            if a.len() >= 3 {
                assert(a.skip(1).skip(1)[0] == a[2]);
            }
        }
    }
}

/// A transfer that does not run and whose number has been handed out is not reported any more.
proof fn lemma_over_is_over(s: DispatchView, inputs: Seq<DispatchInputView>, x: u64)
    requires
        s.next_id + inputs.len() <= u64::MAX,
        x < s.next_id,
        !s.tasks.contains(x),
    ensures
        results_of(dispatch_run(s, inputs).1, x) == Seq::<TransferResultView>::empty(),
    decreases inputs.len(),
{
    if inputs.len() > 0 {
        let (s1, a) = dispatched(s, inputs[0]);
        let rest = inputs.skip(1);
        lemma_step_results(s, inputs[0], x);
        assert(s1.next_id <= s.next_id + 1);
        lemma_over_is_over(s1, rest, x);
        lemma_results_append(a, dispatch_run(s1, rest).1, x);
        assert(results_of(dispatch_run(s, inputs).1, x) =~= Seq::empty());
    }
}

/// The end of a transfer is reported at most once, as long as the numbers have not started over.
pub proof fn law_finished_at_most_once(s: DispatchView, inputs: Seq<DispatchInputView>, x: u64)
    requires
        ids_below_next(s),
        s.next_id + inputs.len() <= u64::MAX,
    ensures
        results_of(dispatch_run(s, inputs).1, x).len() <= 1,
    decreases inputs.len(),
{
    if inputs.len() > 0 {
        let (s1, a) = dispatched(s, inputs[0]);
        let rest = inputs.skip(1);
        lemma_step_results(s, inputs[0], x);
        law_ids_stay_below_next(s, inputs[0]);
        lemma_results_append(a, dispatch_run(s1, rest).1, x);
        if results_of(a, x).len() == 1 {
            assert(s1.next_id == s.next_id);
            lemma_over_is_over(s1, rest, x);
        } else {
            law_finished_at_most_once(s1, rest, x);
        }
    }
}

/// A transfer that is cancelled while it runs is reported once, as cancelled, whatever its task
/// still has to say.
pub proof fn law_cancelled_is_reported_once(
    s: DispatchView,
    xfer_id: u64,
    inputs: Seq<DispatchInputView>,
)
    requires
        ids_below_next(s),
        s.next_id + inputs.len() <= u64::MAX,
        s.tasks.contains(xfer_id),
    ensures
        ({
            let cancel = DispatchInputView::Command(Some(CommandView::Cancel { xfer_id }));
            results_of(dispatch_run(s, seq![cancel] + inputs).1, xfer_id) == seq![
                TransferResultView::Cancelled,
            ]
        }),
{
    let cancel = DispatchInputView::Command(Some(CommandView::Cancel { xfer_id }));
    let all = seq![cancel] + inputs;
    let (s1, a) = dispatched(s, cancel);
    assert(all[0] == cancel);
    assert(all.skip(1) =~= inputs);
    lemma_over_is_over(s1, inputs, xfer_id);
    lemma_results_append(a, dispatch_run(s1, inputs).1, xfer_id);
    assert(results_of(a, xfer_id) =~= seq![TransferResultView::Cancelled]) by {
        reveal_with_fuel(results_of, 4);
        assert(a.skip(1)[0] == a[1]);
        if a.len() == 3 {
            assert(a.skip(1).skip(1)[0] == a[2]);
        }
    }
}

/// Numbers in use stay below the next one, as long as the numbers have not started over.
pub proof fn law_ids_stay_below_next(s: DispatchView, input: DispatchInputView)
    requires
        ids_below_next(s),
        s.next_id < u64::MAX,
    ensures
        ids_below_next(dispatched(s, input).0),
{
}

// ----- whole runs -----------------------------------------------------------

/// The numbers of the transfers that are started, in order.
pub open spec fn started_ids(actions: Seq<DispatchActionView>) -> Seq<u64>
    decreases actions.len(),
{
    if actions.len() == 0 {
        Seq::empty()
    } else {
        (match starts(actions[0]) {
            Some(x) => seq![x],
            None => Seq::empty(),
        }) + started_ids(actions.skip(1))
    }
}

proof fn lemma_started_append(a: Seq<DispatchActionView>, b: Seq<DispatchActionView>)
    ensures
        started_ids(a + b) == started_ids(a) + started_ids(b),
    decreases a.len(),
{
    if a.len() == 0 {
        assert(a + b =~= b);
        assert(started_ids(a) + started_ids(b) =~= started_ids(b));
    } else {
        assert((a + b).skip(1) =~= a.skip(1) + b);
        lemma_started_append(a.skip(1), b);
        assert(started_ids(a + b) =~= started_ids(a) + started_ids(b));
    }
}

/// One step starts at most one transfer, which gets the next number.
proof fn lemma_step_starts(s: DispatchView, input: DispatchInputView)
    ensures
        ({
            let (s2, a) = dispatched(s, input);
            ||| started_ids(a) == Seq::<u64>::empty() && s2.next_id == s.next_id
            ||| started_ids(a) == seq![s.next_id] && s2.next_id == following(s.next_id)
        }),
{
    reveal_with_fuel(started_ids, 4);
    let a = dispatched(s, input).1;
    assert(a.len() <= 3);
    if a.len() >= 1 {
        assert(a.skip(1).len() == a.len() - 1);
        if a.len() >= 2 {
            assert(a.skip(1)[0] == a[1]);
            if a.len() >= 3 {
                assert(a.skip(1).skip(1)[0] == a[2]);
            }
        }
    }
}

/// Whatever happens, transfers are numbered in the order in which they start, each number being
/// one more than that before; behind the largest the numbers start over.
pub proof fn law_numbers_in_order(s: DispatchView, inputs: Seq<DispatchInputView>)
    ensures
        ({
            let ids = started_ids(dispatch_run(s, inputs).1);
            forall|n: int|
                0 <= n < ids.len() ==> #[trigger] ids[n] == (s.next_id + n)
                    % 0x1_0000_0000_0000_0000
        }),
    decreases inputs.len(),
{
    if inputs.len() > 0 {
        let (s1, a) = dispatched(s, inputs[0]);
        let rest = inputs.skip(1);
        let b = dispatch_run(s1, rest).1;
        law_numbers_in_order(s1, rest);
        lemma_started_append(a, b);
        lemma_step_starts(s, inputs[0]);
        let ids = started_ids(a + b);
        let later = started_ids(b);
        assert forall|n: int| 0 <= n < ids.len() implies #[trigger] ids[n] == (s.next_id + n)
            % 0x1_0000_0000_0000_0000 by {
            if started_ids(a).len() == 0 {
                assert(ids =~= later);
                assert(ids[n] == later[n]);
            } else if n > 0 {
                assert(ids[n] == later[n - 1]);
            } else {
                assert(ids[n] == s.next_id);
            }
        }
    }
}

/// A new dispatcher numbers the transfers 1, 2, 3 and so on, as far as the numbers reach: the
/// first start gets number 1, the second number 2.
pub proof fn law_first_numbers(inputs: Seq<DispatchInputView>, n: int)
    requires
        0 <= n < started_ids(dispatch_run(new_dispatcher(), inputs).1).len(),
        n < u64::MAX,
    ensures
        started_ids(dispatch_run(new_dispatcher(), inputs).1)[n] == n + 1,
{
    law_numbers_in_order(new_dispatcher(), inputs);
}

/// Whether an input is the end of a transfer.
pub open spec fn ends(input: DispatchInputView, x: u64) -> bool {
    match input {
        DispatchInputView::Sent { xfer_id, .. } => xfer_id == x,
        DispatchInputView::ClipboardSent { xfer_id, .. } => xfer_id == x,
        DispatchInputView::Received { xfer_id, .. } => xfer_id == x,
        _ => false,
    }
}

/// Whether an input cancels a transfer.
pub open spec fn cancels(input: DispatchInputView, x: u64) -> bool {
    input matches DispatchInputView::Command(Some(CommandView::Cancel { xfer_id })) && xfer_id == x
}

/// Whether none of the inputs ends or cancels a transfer.
pub open spec fn leave_alone(inputs: Seq<DispatchInputView>, x: u64) -> bool {
    forall|i: int|
        0 <= i < inputs.len() ==> !ends(#[trigger] inputs[i], x) && !cancels(inputs[i], x)
}

/// The result that the end of a transfer is reported with, where it is reported.
pub open spec fn result_of_end(input: DispatchInputView) -> Seq<TransferResultView> {
    let event = match input {
        DispatchInputView::Sent { xfer_id, end } => Some(send_finished_of(xfer_id, end)),
        DispatchInputView::ClipboardSent { xfer_id, error } => clipboard_finished_of(
            xfer_id,
            error,
        ),
        DispatchInputView::Received { xfer_id, outcome } => recv_finished_of(xfer_id, outcome),
        _ => None,
    };
    match event {
        Some(EventView::Finished { xfer_id: _, result }) => seq![result],
        _ => Seq::empty(),
    }
}

proof fn lemma_run_append(
    s: DispatchView,
    a: Seq<DispatchInputView>,
    b: Seq<DispatchInputView>,
)
    ensures
        ({
            let (s1, x) = dispatch_run(s, a);
            let (s2, y) = dispatch_run(s1, b);
            dispatch_run(s, a + b) == (s2, x + y)
        }),
    decreases a.len(),
{
    if a.len() == 0 {
        assert(a + b =~= b);
        let y = dispatch_run(s, b).1;
        assert(Seq::<DispatchActionView>::empty() + y =~= y);
    } else {
        let (s0, first) = dispatched(s, a[0]);
        assert((a + b).skip(1) =~= a.skip(1) + b);
        lemma_run_append(s0, a.skip(1), b);
        let (s1, x) = dispatch_run(s0, a.skip(1));
        let y = dispatch_run(s1, b).1;
        assert(first + (x + y) =~= (first + x) + y);
    }
}

/// A step that neither ends nor cancels a transfer leaves it running and reports nothing of it.
proof fn lemma_left_alone(s: DispatchView, input: DispatchInputView, x: u64)
    requires
        !ends(input, x),
        !cancels(input, x),
    ensures
        s.tasks.contains(x) ==> dispatched(s, input).0.tasks.contains(x),
        results_of(dispatched(s, input).1, x) == Seq::<TransferResultView>::empty(),
{
    lemma_step_results(s, input, x);
    let a = dispatched(s, input).1;
    reveal_with_fuel(results_of, 4);
    assert(a.len() <= 3);
    if a.len() >= 1 {
        assert(a.skip(1).len() == a.len() - 1);
        if a.len() >= 2 {
            assert(a.skip(1)[0] == a[1]);
            if a.len() >= 3 {
                assert(a.skip(1).skip(1)[0] == a[2]);
            }
        }
    }
    assert(results_of(a, x) =~= Seq::empty());
}

/// A transfer that was started runs until something ends or cancels it.
proof fn lemma_started_runs(s: DispatchView, inputs: Seq<DispatchInputView>, x: u64)
    requires
        leave_alone(inputs, x),
        s.tasks.contains(x) || started_ids(dispatch_run(s, inputs).1).contains(x),
    ensures
        dispatch_run(s, inputs).0.tasks.contains(x),
        results_of(dispatch_run(s, inputs).1, x) == Seq::<TransferResultView>::empty(),
    decreases inputs.len(),
{
    if inputs.len() > 0 {
        let (s1, a) = dispatched(s, inputs[0]);
        let rest = inputs.skip(1);
        let b = dispatch_run(s1, rest).1;
        assert(forall|i: int| 0 <= i < rest.len() ==> #[trigger] rest[i] == inputs[i + 1]);
        lemma_left_alone(s, inputs[0], x);
        lemma_step_starts(s, inputs[0]);
        lemma_started_append(a, b);
        lemma_results_append(a, b, x);
        if !s.tasks.contains(x) {
            let ids = started_ids(a + b);
            let k = choose|k: int| 0 <= k < ids.len() && ids[k] == x;
            if k < started_ids(a).len() {
                assert(x == s.next_id);
                lemma_start_is_running(s, inputs[0]);
            } else {
                assert(started_ids(b)[k - started_ids(a).len()] == x);
            }
        }
        lemma_started_runs(s1, rest, x);
        assert(results_of(a + b, x) =~= Seq::empty());
    }
}

proof fn lemma_start_is_running(s: DispatchView, input: DispatchInputView)
    requires
        started_ids(dispatched(s, input).1).len() > 0,
    ensures
        dispatched(s, input).0.tasks.contains(s.next_id),
{
    reveal_with_fuel(started_ids, 4);
    let a = dispatched(s, input).1;
    assert(a.len() <= 3);
    if a.len() >= 1 {
        assert(a.skip(1).len() == a.len() - 1);
        if a.len() >= 2 {
            assert(a.skip(1)[0] == a[1]);
            if a.len() >= 3 {
                assert(a.skip(1).skip(1)[0] == a[2]);
            }
        }
    }
}

proof fn lemma_ids_below_run(s: DispatchView, inputs: Seq<DispatchInputView>)
    requires
        ids_below_next(s),
        s.next_id + inputs.len() <= u64::MAX,
    ensures
        ids_below_next(dispatch_run(s, inputs).0),
        dispatch_run(s, inputs).0.next_id <= s.next_id + inputs.len(),
    decreases inputs.len(),
{
    if inputs.len() > 0 {
        law_ids_stay_below_next(s, inputs[0]);
        lemma_step_starts(s, inputs[0]);
        lemma_ids_below_run(dispatched(s, inputs[0]).0, inputs.skip(1));
    }
}

/// A transfer that was started and that nobody cancels is reported when its end comes in, under
/// its own number, exactly as the end says, and never again, whatever happens around it.
pub proof fn law_end_is_reported_once(
    s: DispatchView,
    inputs: Seq<DispatchInputView>,
    i: int,
    x: u64,
)
    requires
        ids_below_next(s),
        s.next_id + inputs.len() <= u64::MAX,
        0 <= i < inputs.len(),
        leave_alone(inputs.take(i), x),
        started_ids(dispatch_run(s, inputs.take(i)).1).contains(x),
        ends(inputs[i], x),
    ensures
        results_of(dispatch_run(s, inputs).1, x) == result_of_end(inputs[i]),
{
    let front = inputs.take(i);
    let rest = inputs.skip(i + 1);
    let one = seq![inputs[i]];
    assert(inputs =~= front + (one + rest));
    lemma_run_append(s, front, one + rest);
    lemma_started_runs(s, front, x);
    lemma_ids_below_run(s, front);
    let (s1, a) = dispatch_run(s, front);
    let (s2, b) = dispatched(s1, inputs[i]);
    assert((one + rest)[0] == inputs[i]);
    assert((one + rest).skip(1) =~= rest);
    let c = dispatch_run(s2, rest).1;
    assert(s2.next_id == s1.next_id);
    lemma_over_is_over(s2, rest, x);
    lemma_results_append(a, b + c, x);
    lemma_results_append(b, c, x);
    assert(results_of(b, x) =~= result_of_end(inputs[i])) by {
        reveal_with_fuel(results_of, 2);
        if b.len() > 0 {
            assert(b.skip(1).len() == 0);
        }
    }
    assert(results_of(dispatch_run(s, inputs).1, x) =~= result_of_end(inputs[i]));
}

/// An incoming transfer that ends as a clipboard is not reported; every other one that ends is
/// reported exactly once, as long as nobody cancels it.
pub proof fn law_received_is_reported_once(
    s: DispatchView,
    inputs: Seq<DispatchInputView>,
    i: int,
    x: u64,
    outcome: RecvEndView,
)
    requires
        ids_below_next(s),
        s.next_id + inputs.len() <= u64::MAX,
        0 <= i < inputs.len(),
        leave_alone(inputs.take(i), x),
        dispatch_run(s, inputs.take(i)).1.contains(DispatchActionView::StartReceive { xfer_id: x }),
        inputs[i] == (DispatchInputView::Received { xfer_id: x, outcome }),
    ensures
        results_of(dispatch_run(s, inputs).1, x).len() == (if outcome == RecvEndView::Ended(
            RecvOutcomeView::Clipboard,
        ) {
            0int
        } else {
            1
        }),
{
    let a = dispatch_run(s, inputs.take(i)).1;
    let k = choose|k: int| 0 <= k < a.len() && a[k] == DispatchActionView::StartReceive {
        xfer_id: x,
    };
    lemma_start_listed(a, k);
    law_end_is_reported_once(s, inputs, i, x);
}

proof fn lemma_start_listed(actions: Seq<DispatchActionView>, k: int)
    requires
        0 <= k < actions.len(),
        starts(actions[k]) is Some,
    ensures
        started_ids(actions).contains(starts(actions[k])->0),
    decreases actions.len(),
{
    let x = starts(actions[k])->0;
    let ids = started_ids(actions);
    if k == 0 {
        assert(ids[0] == x);
    } else {
        let rest = actions.skip(1);
        assert(rest[k - 1] == actions[k]);
        lemma_start_listed(rest, k - 1);
        let later = started_ids(rest);
        let j = choose|j: int| 0 <= j < later.len() && later[j] == x;
        assert(ids[ids.len() - later.len() + j] == x);
    }
}

/// An answer to an offer that is not known, or that was answered before, changes nothing.
pub proof fn law_stray_answer_changes_nothing(
    s: DispatchView,
    xfer_id: u64,
    first: DecisionView,
    between: Seq<DispatchInputView>,
    second: DecisionView,
)
    requires
        s.next_id + between.len() <= u64::MAX,
    ensures
        ({
            let answer = |d: DecisionView|
                DispatchInputView::Command(
                    Some(CommandView::RespondOffer { xfer_id, decision: d }),
                );
            let s2 = dispatch_run(dispatched(s, answer(first)).0, between).0;
            &&& !s.pending.contains(xfer_id) ==> dispatched(s, answer(first)) == (
                s,
                Seq::<DispatchActionView>::empty(),
            )
            &&& xfer_id < s.next_id ==> dispatched(s2, answer(second)) == (
                s2,
                Seq::<DispatchActionView>::empty(),
            )
        }),
{
    let one = DispatchInputView::Command(
        Some(CommandView::RespondOffer { xfer_id, decision: first }),
    );
    let s1 = dispatched(s, one).0;
    let s2 = dispatch_run(s1, between).0;
    if !s.pending.contains(xfer_id) {
        assert(s.pending.remove(xfer_id) =~= s.pending);
    }
    if xfer_id < s.next_id {
        lemma_answered_stays(s1, between, xfer_id);
        assert(s2.pending.remove(xfer_id) =~= s2.pending);
    }
}

proof fn lemma_answered_stays(s: DispatchView, inputs: Seq<DispatchInputView>, x: u64)
    requires
        s.next_id + inputs.len() <= u64::MAX,
        x < s.next_id,
        !s.pending.contains(x),
    ensures
        !dispatch_run(s, inputs).0.pending.contains(x),
    decreases inputs.len(),
{
    if inputs.len() > 0 {
        let s1 = dispatched(s, inputs[0]).0;
        lemma_step_starts(s, inputs[0]);
        lemma_answered_stays(s1, inputs.skip(1), x);
    }
}

/// Each command to send starts one transfer that carries what the command carries, under the next
/// number; a connection that comes in starts one that awaits an answer.
pub proof fn law_command_starts(
    s: DispatchView,
    target_addr: crate::net::SocketAddr,
    target_fingerprint: Seq<char>,
    root: Seq<char>,
    content: Seq<u8>,
)
    ensures
        ({
            let (t, a) = dispatched(
                s,
                DispatchInputView::Command(
                    Some(CommandView::SendPath { target_addr, target_fingerprint, root }),
                ),
            );
            &&& t.tasks == s.tasks.insert(s.next_id)
            &&& t.pending == s.pending
            &&& a == seq![
                DispatchActionView::StartSend {
                    xfer_id: s.next_id,
                    target_addr,
                    target_fingerprint,
                    root,
                },
            ]
        }),
        ({
            let (t, a) = dispatched(
                s,
                DispatchInputView::Command(
                    Some(CommandView::SendClipboard { target_addr, target_fingerprint, content }),
                ),
            );
            &&& t.tasks == s.tasks.insert(s.next_id)
            &&& t.pending == s.pending
            &&& a == seq![
                DispatchActionView::StartSendClipboard {
                    xfer_id: s.next_id,
                    target_addr,
                    target_fingerprint,
                    content,
                },
            ]
        }),
        ({
            let (t, a) = dispatched(s, DispatchInputView::Incoming(true));
            &&& t.tasks == s.tasks.insert(s.next_id)
            &&& t.pending == s.pending.insert(s.next_id)
            &&& a == seq![DispatchActionView::StartReceive { xfer_id: s.next_id }]
        }),
        dispatched(s, DispatchInputView::Incoming(false)) == (s, seq![DispatchActionView::Stop]),
        dispatched(s, DispatchInputView::Command(None)) == (s, seq![DispatchActionView::Stop]),
{
}

/// The answer to an offer that awaits one reaches the transfer as it was given; the transfer runs
/// on, and no other one is affected.
pub proof fn law_answer_is_handed_on(s: DispatchView, xfer_id: u64, decision: DecisionView)
    requires
        s.pending.contains(xfer_id),
    ensures
        ({
            let (t, a) = dispatched(
                s,
                DispatchInputView::Command(Some(CommandView::RespondOffer { xfer_id, decision })),
            );
            &&& t.next_id == s.next_id
            &&& t.tasks == s.tasks
            &&& t.pending == s.pending.remove(xfer_id)
            &&& a == seq![DispatchActionView::Decide { xfer_id, decision }]
        }),
{
}

/// The end of a running transfer is told as it came about: what was stored where, that it was
/// cancelled, or why it failed. A clipboard is told only where it fails to go out.
pub proof fn law_ends_are_told(
    s: DispatchView,
    xfer_id: u64,
    place: Seq<char>,
    error: Seq<char>,
)
    requires
        s.tasks.contains(xfer_id),
    ensures
        dispatched(s, DispatchInputView::Sent { xfer_id, end: SendEndView::Sent(place) }).1 == seq![
            DispatchActionView::Emit(
                EventView::Finished {
                    xfer_id,
                    result: TransferResultView::Done { destination: place },
                },
            ),
        ],
        dispatched(s, DispatchInputView::Sent { xfer_id, end: SendEndView::Cancelled }).1 == seq![
            DispatchActionView::Emit(
                EventView::Finished { xfer_id, result: TransferResultView::Cancelled },
            ),
        ],
        dispatched(s, DispatchInputView::Sent { xfer_id, end: SendEndView::Failed(error) }).1
            == seq![
            DispatchActionView::Emit(
                EventView::Finished { xfer_id, result: TransferResultView::Error(error) },
            ),
        ],
        dispatched(s, DispatchInputView::ClipboardSent { xfer_id, error: None }).1.len() == 0,
        dispatched(s, DispatchInputView::ClipboardSent { xfer_id, error: Some(error) }).1 == seq![
            DispatchActionView::Emit(
                EventView::Finished { xfer_id, result: TransferResultView::Error(error) },
            ),
        ],
        dispatched(
            s,
            DispatchInputView::Received {
                xfer_id,
                outcome: RecvEndView::Ended(RecvOutcomeView::File(place)),
            },
        ).1 == seq![
            DispatchActionView::Emit(
                EventView::Finished {
                    xfer_id,
                    result: TransferResultView::Done { destination: place },
                },
            ),
        ],
        dispatched(
            s,
            DispatchInputView::Received { xfer_id, outcome: RecvEndView::Failed(error) },
        ).1 == seq![
            DispatchActionView::Emit(
                EventView::Finished { xfer_id, result: TransferResultView::Error(error) },
            ),
        ],
{
}

} // verus!
