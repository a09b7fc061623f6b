//! Keeping a worker running in the session of the user at the console.
use crate::windows_service::worker::NO_ACTIVE_SESSION;
use vstd::prelude::*;

verus! {

/// Shortest pause after a failure, in seconds.
pub const MIN_BACKOFF: u64 = 1;

/// Longest pause after a failure, in seconds.
pub const MAX_BACKOFF: u64 = 30;

/// Pause while nobody is logged on, in seconds.
pub const LOGON_POLL: u64 = 2;

/// How long one wait for the worker lasts, in milliseconds.
pub const WORKER_WAIT: u32 = 1000;

/// What a wait for the worker gave.
#[derive(Clone, Copy, PartialEq, Eq, Structural, Debug)]
pub enum WaitReply {
    /// The worker has exited.
    Signaled,
    /// The time is up.
    Timeout,
    /// Something is wrong with the handle.
    Other,
}

/// Why the wait for a worker is over.
#[derive(Clone, Copy, PartialEq, Eq, Structural, Debug)]
pub enum WaitOutcome {
    /// The worker has exited.
    Exited,
    /// The service shuts down.
    Shutdown,
    /// Another user is at the console.
    SessionChanged,
}

/// The pause after the next failure.
pub open spec fn doubled(backoff: u64) -> u64 {
    if 2 * backoff < MAX_BACKOFF {
        (2 * backoff) as u64
    } else {
        MAX_BACKOFF
    }
}

/// Whether another session is at the console.
pub open spec fn session_changed(active: u32, pinned: u32) -> bool {
    active != pinned && active != NO_ACTIVE_SESSION
}

/// Where the supervision stands.
#[derive(Clone, Copy, PartialEq, Eq, Structural, Debug)]
pub enum Stage {
    /// The shutdown flag is read, no worker runs.
    Start,
    /// The session at the console has been asked for.
    Session,
    /// A worker is being started.
    Spawning {
        /// Session at the console.
        session: u32,
    },
    /// A worker runs, the shutdown flag is read.
    Watching {
        /// Session of the worker.
        session: u32,
    },
    /// A worker runs and is waited for.
    Waiting {
        /// Session of the worker.
        session: u32,
    },
    /// A worker runs, the session at the console has been asked for.
    Looking {
        /// Session of the worker.
        session: u32,
    },
    /// A pause.
    Resting {
        /// Whether a worker that has exited is still to be let go.
        worker: bool,
    },
    /// It is over.
    Ended,
}

/// What the supervisor is told.
#[derive(Clone, Copy, PartialEq, Eq, Structural, Debug)]
pub enum Reply {
    /// The shutdown flag.
    Flag(bool),
    /// The session at the console.
    Session(u32),
    /// A worker was started.
    Spawned,
    /// Nobody was logged on when a worker was to be started.
    NoSession,
    /// The worker could not be started.
    SpawnFailed,
    /// What a wait for the worker gave.
    Wait(WaitReply),
    /// The pause is over.
    Rested,
}

/// What the supervisor asks for.
#[derive(Clone, Copy, PartialEq, Eq, Structural, Debug)]
pub enum Action {
    /// Read the shutdown flag.
    ReadFlag,
    /// Ask for the session at the console.
    QuerySession,
    /// Start a worker.
    Spawn,
    /// Wait for the worker, in milliseconds.
    Wait(u32),
    /// Terminate the worker and let go of it.
    Terminate,
    /// Let go of the worker.
    Release,
    /// Pause, in seconds.
    Sleep(u64),
    /// Return.
    Return,
}

/// State of the supervisor.
#[verifier::ext_equal]
pub struct SupervisorView {
    /// Pause after the next failure, in seconds.
    pub backoff: u64,
    /// Where it stands.
    pub stage: Stage,
}

/// The wait for a worker is over.
pub open spec fn wait_over(s: SupervisorView, outcome: WaitOutcome) -> (
    SupervisorView,
    Seq<Action>,
) {
    match outcome {
        WaitOutcome::Shutdown => (
            SupervisorView { stage: Stage::Ended, ..s },
            seq![Action::Terminate, Action::Return],
        ),
        WaitOutcome::SessionChanged => (
            SupervisorView { stage: Stage::Start, ..s },
            seq![Action::Terminate, Action::ReadFlag],
        ),
        WaitOutcome::Exited => (
            SupervisorView {
                backoff: doubled(s.backoff),
                stage: Stage::Resting { worker: true },
            },
            seq![Action::Sleep(s.backoff)],
        ),
    }
}

/// The supervisor is told something; what it has not asked for changes nothing.
pub open spec fn supervise_step(s: SupervisorView, r: Reply) -> (SupervisorView, Seq<Action>) {
    match (s.stage, r) {
        (Stage::Start, Reply::Flag(true)) => (
            SupervisorView { stage: Stage::Ended, ..s },
            seq![Action::Return],
        ),
        (Stage::Start, Reply::Flag(false)) => (
            SupervisorView { stage: Stage::Session, ..s },
            seq![Action::QuerySession],
        ),
        (Stage::Session, Reply::Session(session)) => if session == NO_ACTIVE_SESSION {
            (
                SupervisorView { stage: Stage::Resting { worker: false }, ..s },
                seq![Action::Sleep(LOGON_POLL)],
            )
        } else {
            (SupervisorView { stage: Stage::Spawning { session }, ..s }, seq![Action::Spawn])
        },
        (Stage::Spawning { session }, Reply::Spawned) => (
            SupervisorView { backoff: MIN_BACKOFF, stage: Stage::Watching { session } },
            seq![Action::ReadFlag],
        ),
        (Stage::Spawning { session }, Reply::NoSession) => (
            SupervisorView { stage: Stage::Resting { worker: false }, ..s },
            seq![Action::Sleep(LOGON_POLL)],
        ),
        (Stage::Spawning { session }, Reply::SpawnFailed) => (
            SupervisorView {
                backoff: doubled(s.backoff),
                stage: Stage::Resting { worker: false },
            },
            seq![Action::Sleep(s.backoff)],
        ),
        (Stage::Watching { session }, Reply::Flag(true)) => wait_over(s, WaitOutcome::Shutdown),
        (Stage::Watching { session }, Reply::Flag(false)) => (
            SupervisorView { stage: Stage::Waiting { session }, ..s },
            seq![Action::Wait(WORKER_WAIT)],
        ),
        (Stage::Waiting { session }, Reply::Wait(WaitReply::Timeout)) => (
            SupervisorView { stage: Stage::Looking { session }, ..s },
            seq![Action::QuerySession],
        ),
        (Stage::Waiting { session }, Reply::Wait(_)) => wait_over(s, WaitOutcome::Exited),
        (Stage::Looking { session }, Reply::Session(active)) => if session_changed(
            active,
            session,
        ) {
            wait_over(s, WaitOutcome::SessionChanged)
        } else {
            (SupervisorView { stage: Stage::Watching { session }, ..s }, seq![Action::ReadFlag])
        },
        (Stage::Resting { worker }, Reply::Rested) => (
            SupervisorView { stage: Stage::Start, ..s },
            if worker {
                seq![Action::Release, Action::ReadFlag]
            } else {
                seq![Action::ReadFlag]
            },
        ),
        _ => (s, Seq::empty()),
    }
}

/// The pause stays between its bounds.
pub open spec fn backoff_bounded(s: SupervisorView) -> bool {
    MIN_BACKOFF <= s.backoff <= MAX_BACKOFF
}

/// Keeps a worker running.
#[derive(Debug)]
pub struct Supervisor {
    backoff: u64,
    stage: Stage,
}

impl View for Supervisor {
    type V = SupervisorView;

    closed spec fn view(&self) -> SupervisorView {
        SupervisorView { backoff: self.backoff, stage: self.stage }
    }
}

impl Supervisor {
    /// A supervision, with what is asked first.
    pub fn new() -> (r: (Supervisor, Action))
        ensures
            r.0@ == (SupervisorView { backoff: MIN_BACKOFF, stage: Stage::Start }),
            backoff_bounded(r.0@),
            r.1 == Action::ReadFlag,
    {
        (Supervisor { backoff: MIN_BACKOFF, stage: Stage::Start }, Action::ReadFlag)
    }

    fn pause(&mut self, worker: bool) -> (r: Action)
        requires
            backoff_bounded(old(self)@),
        ensures
            final(self)@ == (SupervisorView {
                backoff: doubled(old(self)@.backoff),
                stage: Stage::Resting { worker },
            }),
            r == Action::Sleep(old(self)@.backoff),
    {
        let seconds: u64 = self.backoff;
        let twice: u64 = 2 * seconds;
        self.backoff = if twice < MAX_BACKOFF {
            twice
        } else {
            MAX_BACKOFF
        };
        self.stage = Stage::Resting { worker };
        Action::Sleep(seconds)
    }

    fn wait_over(&mut self, outcome: WaitOutcome) -> (r: Vec<Action>)
        requires
            backoff_bounded(old(self)@),
        ensures
            (final(self)@, r@) == wait_over(old(self)@, outcome),
    {
        let mut r: Vec<Action> = Vec::new();
        match outcome {
            WaitOutcome::Shutdown => {
                self.stage = Stage::Ended;
                r.push(Action::Terminate);
                r.push(Action::Return);
            },
            WaitOutcome::SessionChanged => {
                self.stage = Stage::Start;
                r.push(Action::Terminate);
                r.push(Action::ReadFlag);
            },
            WaitOutcome::Exited => {
                let a: Action = self.pause(true);
                r.push(a);
            },
        }
        assert(r@ =~= wait_over(old(self)@, outcome).1);
        r
    }

    /// Takes what the supervisor is told; says what it asks for.
    pub fn step(&mut self, reply: Reply) -> (r: Vec<Action>)
        requires
            backoff_bounded(old(self)@),
        ensures
            (final(self)@, r@) == supervise_step(old(self)@, reply),
            backoff_bounded(final(self)@),
    {
        let mut r: Vec<Action> = Vec::new();
        match self.stage {
            Stage::Start => match reply {
                Reply::Flag(shutdown) => {
                    if shutdown {
                        self.stage = Stage::Ended;
                        r.push(Action::Return);
                    } else {
                        self.stage = Stage::Session;
                        r.push(Action::QuerySession);
                    }
                },
                _ => {},
            },
            Stage::Session => match reply {
                Reply::Session(session) => {
                    if session == NO_ACTIVE_SESSION {
                        self.stage = Stage::Resting { worker: false };
                        r.push(Action::Sleep(LOGON_POLL));
                    } else {
                        self.stage = Stage::Spawning { session };
                        r.push(Action::Spawn);
                    }
                },
                _ => {},
            },
            Stage::Spawning { session } => match reply {
                Reply::Spawned => {
                    self.backoff = MIN_BACKOFF;
                    self.stage = Stage::Watching { session };
                    r.push(Action::ReadFlag);
                },
                Reply::NoSession => {
                    self.stage = Stage::Resting { worker: false };
                    r.push(Action::Sleep(LOGON_POLL));
                },
                Reply::SpawnFailed => {
                    let a: Action = self.pause(false);
                    r.push(a);
                },
                _ => {},
            },
            Stage::Watching { session } => match reply {
                Reply::Flag(shutdown) => {
                    if shutdown {
                        return self.wait_over(WaitOutcome::Shutdown);
                    }
                    self.stage = Stage::Waiting { session };
                    r.push(Action::Wait(WORKER_WAIT));
                },
                _ => {},
            },
            Stage::Waiting { session } => match reply {
                Reply::Wait(w) => {
                    if w != WaitReply::Timeout {
                        return self.wait_over(WaitOutcome::Exited);
                    }
                    self.stage = Stage::Looking { session };
                    r.push(Action::QuerySession);
                },
                _ => {},
            },
            Stage::Looking { session } => match reply {
                Reply::Session(active) => {
                    if active != session && active != NO_ACTIVE_SESSION {
                        return self.wait_over(WaitOutcome::SessionChanged);
                    }
                    self.stage = Stage::Watching { session };
                    r.push(Action::ReadFlag);
                },
                _ => {},
            },
            Stage::Resting { worker } => match reply {
                Reply::Rested => {
                    if worker {
                        r.push(Action::Release);
                    }
                    self.stage = Stage::Start;
                    r.push(Action::ReadFlag);
                },
                _ => {},
            },
            Stage::Ended => {},
        }
        assert(r@ =~= supervise_step(old(self)@, reply).1);
        r
    }
}

// ----- laws -----------------------------------------------------------------

/// How many workers the service holds.
pub open spec fn workers(s: SupervisorView) -> int {
    match s.stage {
        Stage::Watching { .. } => 1,
        Stage::Waiting { .. } => 1,
        Stage::Looking { .. } => 1,
        Stage::Resting { worker: true } => 1,
        _ => 0,
    }
}

/// How many workers an answer adds.
pub open spec fn started(s: SupervisorView, r: Reply) -> int {
    if s.stage is Spawning && r == Reply::Spawned {
        1
    } else {
        0
    }
}

/// How many workers a list of actions lets go of.
pub open spec fn let_go(actions: Seq<Action>) -> int
    decreases actions.len(),
{
    if actions.len() == 0 {
        0
    } else {
        let_go(actions.drop_last()) + (match actions.last() {
            Action::Terminate => 1int,
            Action::Release => 1int,
            _ => 0int,
        })
    }
}

/// A worker is started only while none is held, every worker is let go of exactly once, and none
/// is held when the supervision is over.
pub proof fn law_one_worker(s: SupervisorView, r: Reply)
    ensures
        ({
            let t = supervise_step(s, r);
            &&& workers(s) + started(s, r) == workers(t.0) + let_go(t.1)
            &&& t.1.contains(Action::Spawn) ==> workers(t.0) == 0
            &&& t.0.stage is Ended ==> workers(t.0) == 0
        }),
{
    let t = supervise_step(s, r);
    reveal_with_fuel(let_go, 3);
    if t.1.len() == 2 {
        assert(t.1.drop_last() =~= seq![t.1[0]]);
    }
    if t.1.contains(Action::Spawn) {
        assert(t.1 =~= seq![Action::Spawn]);
    }
}

/// The pause before the next try is at least one second and at most thirty, doubles with each
/// failure up to that, and starts over with a worker that could be started.
pub proof fn law_backoff(s: SupervisorView, r: Reply)
    requires
        backoff_bounded(s),
    ensures
        backoff_bounded(supervise_step(s, r).0),
        s.stage is Spawning && r == Reply::SpawnFailed ==> supervise_step(s, r) == (
            SupervisorView { backoff: doubled(s.backoff), stage: Stage::Resting { worker: false } },
            seq![Action::Sleep(s.backoff)],
        ),
        s.stage is Spawning && r == Reply::Spawned ==> supervise_step(s, r).0.backoff
            == MIN_BACKOFF,
{
}

/// Once the shutdown flag is seen, the supervision is over at once, and a running worker is
/// terminated.
pub proof fn law_shutdown(s: SupervisorView)
    requires
        s.stage is Start || s.stage is Watching,
    ensures
        ({
            let t = supervise_step(s, Reply::Flag(true));
            &&& t.0.stage is Ended
            &&& t.1.last() == Action::Return
            &&& workers(s) == 1 <==> t.1.contains(Action::Terminate)
        }),
{
    let t = supervise_step(s, Reply::Flag(true));
    if s.stage is Watching {
        assert(t.1[0] == Action::Terminate);
    }
}

/// A worker follows the user at the console: where another user is there, it is terminated and
/// the next one is started without a pause. Where nobody is, it is kept.
pub proof fn law_session_change(s: SupervisorView, active: u32)
    requires
        s.stage is Looking,
    ensures
        ({
            let pinned = s.stage->Looking_session;
            let t = supervise_step(s, Reply::Session(active));
            &&& session_changed(active, pinned) ==> t == (
                SupervisorView { stage: Stage::Start, ..s },
                seq![Action::Terminate, Action::ReadFlag],
            )
            &&& active == NO_ACTIVE_SESSION ==> t.0.stage == Stage::Watching { session: pinned }
        }),
{
}

/// A worker is started for the user at the console as soon as there is one; while there is none,
/// the console is asked again every two seconds.
pub proof fn law_worker_is_started(s: SupervisorView, session: u32)
    ensures
        s.stage is Start ==> supervise_step(s, Reply::Flag(false)) == (
            SupervisorView { backoff: s.backoff, stage: Stage::Session },
            seq![Action::QuerySession],
        ),
        s.stage is Session && session != NO_ACTIVE_SESSION ==> supervise_step(
            s,
            Reply::Session(session),
        ) == (
            SupervisorView { backoff: s.backoff, stage: Stage::Spawning { session } },
            seq![Action::Spawn],
        ),
        s.stage is Session ==> supervise_step(s, Reply::Session(NO_ACTIVE_SESSION)) == (
            SupervisorView { backoff: s.backoff, stage: Stage::Resting { worker: false } },
            seq![Action::Sleep(2)],
        ),
        s.stage == (Stage::Spawning { session }) ==> supervise_step(s, Reply::Spawned) == (
            SupervisorView { backoff: 1, stage: Stage::Watching { session } },
            seq![Action::ReadFlag],
        ),
        s.stage == (Stage::Spawning { session }) ==> supervise_step(s, Reply::NoSession) == (
            SupervisorView { backoff: s.backoff, stage: Stage::Resting { worker: false } },
            seq![Action::Sleep(2)],
        ),
{
}

/// A running worker is waited for a second at a time; in between the flag and the console are looked
/// at. One that has exited is started again after the pause, which doubles.
pub proof fn law_worker_is_watched(s: SupervisorView, session: u32, w: WaitReply, active: u32)
    ensures
        s.stage == (Stage::Watching { session }) ==> supervise_step(s, Reply::Flag(false)) == (
            SupervisorView { backoff: s.backoff, stage: Stage::Waiting { session } },
            seq![Action::Wait(1000)],
        ),
        s.stage == (Stage::Waiting { session }) ==> supervise_step(
            s,
            Reply::Wait(WaitReply::Timeout),
        ) == (
            SupervisorView { backoff: s.backoff, stage: Stage::Looking { session } },
            seq![Action::QuerySession],
        ),
        s.stage == (Stage::Waiting { session }) && w != WaitReply::Timeout ==> ({
            let (t, a) = supervise_step(s, Reply::Wait(w));
            &&& t.stage == Stage::Resting { worker: true }
            &&& t.backoff == if 2 * s.backoff < 30 {
                (2 * s.backoff) as u64
            } else {
                30u64
            }
            &&& a == seq![Action::Sleep(s.backoff)]
        }),
        s.stage == (Stage::Looking { session }) && (active == session || active
            == NO_ACTIVE_SESSION) ==> supervise_step(s, Reply::Session(active)) == (
            SupervisorView { backoff: s.backoff, stage: Stage::Watching { session } },
            seq![Action::ReadFlag],
        ),
        s.stage == (Stage::Resting { worker: true }) ==> supervise_step(s, Reply::Rested) == (
            SupervisorView { backoff: s.backoff, stage: Stage::Start },
            seq![Action::Release, Action::ReadFlag],
        ),
        s.stage == (Stage::Resting { worker: false }) ==> supervise_step(s, Reply::Rested) == (
            SupervisorView { backoff: s.backoff, stage: Stage::Start },
            seq![Action::ReadFlag],
        ),
{
}

/// Another user at the console means another session, and nobody there does not.
pub proof fn law_session_changed(active: u32, pinned: u32)
    ensures
        session_changed(active, pinned) <==> (active != pinned && active != NO_ACTIVE_SESSION),
        !session_changed(pinned, pinned),
        supervise_step(
            SupervisorView { backoff: 1, stage: Stage::Ended },
            Reply::Session(active),
        ).1.len() == 0,
{
}

} // verus!
