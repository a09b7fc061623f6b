//! Starting a worker in the session of the user at the console.
//!
//! The service takes a copy of its own token, moves the copy to that session and starts the
//! worker with it. Every token and environment on the way is given back.
use crate::text;
use crate::windows_service::{Error, ErrorView};
use vstd::multiset::Multiset;
use vstd::prelude::*;

verus! {

/// The session that stands for nobody being logged on at the console.
pub const NO_ACTIVE_SESSION: u32 = 0xFFFF_FFFF;

/// The handle that stands for no handle.
pub const INVALID_HANDLE: u64 = 0xFFFF_FFFF_FFFF_FFFF;

/// Whether a handle is one.
pub open spec fn is_handle(h: u64) -> bool {
    h != 0 && h != INVALID_HANDLE
}

/// Where the start of a worker stands.
#[derive(Clone, Copy, PartialEq, Eq, Structural, Debug)]
pub enum SpawnStage {
    /// The session has been asked for.
    Session,
    /// The service's own token has been asked for.
    OpenToken {
        /// Session of the user.
        session: u32,
    },
    /// A copy of the token has been asked for.
    Duplicate {
        /// Session of the user.
        session: u32,
        /// The service's own token.
        current: u64,
    },
    /// The copy is being moved to the session.
    Retarget {
        /// Session of the user.
        session: u32,
        /// The copy.
        token: u64,
    },
    /// The environment of the user has been asked for.
    Environment {
        /// Session of the user.
        session: u32,
        /// The copy.
        token: u64,
    },
    /// The worker is being started.
    Create {
        /// Session of the user.
        session: u32,
        /// The copy.
        token: u64,
        /// Environment of the user.
        environment: u64,
    },
    /// It is over.
    Finished,
}

/// What the system answered.
#[derive(Debug)]
pub enum SpawnReply {
    /// The session at the console.
    Session(u32),
    /// A token.
    Token(u64),
    /// It was done.
    Done,
    /// An environment.
    Environment(u64),
    /// The worker was started.
    Process {
        /// Its process.
        process: u64,
        /// Its thread.
        thread: u64,
    },
    /// It was refused; holds the system's words.
    Refused(String),
}

/// Contents of a [`SpawnReply`].
#[verifier::ext_equal]
pub enum SpawnReplyView {
    /// See [`SpawnReply::Session`].
    Session(u32),
    /// See [`SpawnReply::Token`].
    Token(u64),
    /// See [`SpawnReply::Done`].
    Done,
    /// See [`SpawnReply::Environment`].
    Environment(u64),
    /// See [`SpawnReply::Process`].
    Process {
        /// See [`SpawnReply::Process`].
        process: u64,
        /// See [`SpawnReply::Process`].
        thread: u64,
    },
    /// See [`SpawnReply::Refused`].
    Refused(Seq<char>),
}

impl View for SpawnReply {
    type V = SpawnReplyView;

    open spec fn view(&self) -> SpawnReplyView {
        match self {
            SpawnReply::Session(s) => SpawnReplyView::Session(*s),
            SpawnReply::Token(t) => SpawnReplyView::Token(*t),
            SpawnReply::Done => SpawnReplyView::Done,
            SpawnReply::Environment(e) => SpawnReplyView::Environment(*e),
            SpawnReply::Process { process, thread } => SpawnReplyView::Process {
                process: *process,
                thread: *thread,
            },
            SpawnReply::Refused(e) => SpawnReplyView::Refused(e@),
        }
    }
}

/// What is asked of the system.
#[derive(Clone, Copy, PartialEq, Eq, Structural, Debug)]
pub enum SpawnAction {
    /// The session at the console.
    QuerySession,
    /// The service's own token.
    OpenProcessToken,
    /// A copy of a token.
    DuplicateToken {
        /// The token.
        token: u64,
    },
    /// Move a token to a session.
    SetTokenSession {
        /// The token.
        token: u64,
        /// The session.
        session: u32,
    },
    /// The environment of the user of a token.
    CreateEnvironment {
        /// The token.
        token: u64,
    },
    /// Start the worker.
    CreateProcess {
        /// The token it runs with.
        token: u64,
        /// Its environment.
        environment: u64,
    },
    /// Give an environment back.
    DestroyEnvironment {
        /// The environment.
        environment: u64,
    },
    /// Give a token back.
    CloseToken {
        /// The token.
        token: u64,
    },
}

/// How the start of a worker ended.
#[derive(Debug)]
pub enum SpawnEnd {
    /// Nobody is logged on.
    NoSession,
    /// The worker runs.
    Spawned {
        /// Its process.
        process: u64,
        /// Its thread.
        thread: u64,
        /// Its session.
        session: u32,
    },
    /// A step was refused.
    Failed(Error),
}

/// Contents of a [`SpawnEnd`].
#[verifier::ext_equal]
pub enum SpawnEndView {
    /// See [`SpawnEnd::NoSession`].
    NoSession,
    /// See [`SpawnEnd::Spawned`].
    Spawned {
        /// See [`SpawnEnd::Spawned`].
        process: u64,
        /// See [`SpawnEnd::Spawned`].
        thread: u64,
        /// See [`SpawnEnd::Spawned`].
        session: u32,
    },
    /// See [`SpawnEnd::Failed`].
    Failed(ErrorView),
}

impl View for SpawnEnd {
    type V = SpawnEndView;

    open spec fn view(&self) -> SpawnEndView {
        match self {
            SpawnEnd::NoSession => SpawnEndView::NoSession,
            SpawnEnd::Spawned { process, thread, session } => SpawnEndView::Spawned {
                process: *process,
                thread: *thread,
                session: *session,
            },
            SpawnEnd::Failed(e) => SpawnEndView::Failed(e@),
        }
    }
}

/// The contents of an optional end.
pub open spec fn opt_end_view(e: Option<SpawnEnd>) -> Option<SpawnEndView> {
    match e {
        Some(e) => Some(e@),
        None => None,
    }
}

/// What comes of an answer: the next stage, what is asked next, and the end where it is over.
#[verifier::ext_equal]
pub struct SpawnStep {
    /// Next stage.
    pub stage: SpawnStage,
    /// What is asked.
    pub actions: Seq<SpawnAction>,
    /// How it ended.
    pub end: Option<SpawnEndView>,
}

/// Gives a token back, where it is one.
pub open spec fn close_if(token: u64) -> Seq<SpawnAction> {
    if is_handle(token) {
        seq![SpawnAction::CloseToken { token }]
    } else {
        Seq::empty()
    }
}

/// The start goes on.
pub open spec fn going_on(stage: SpawnStage, actions: Seq<SpawnAction>) -> SpawnStep {
    SpawnStep { stage, actions, end: None }
}

/// The start is over after what is given back.
pub open spec fn over(actions: Seq<SpawnAction>, end: SpawnEndView) -> SpawnStep {
    SpawnStep { stage: SpawnStage::Finished, actions, end: Some(end) }
}

/// The start failed in a call into the system.
pub open spec fn refused(actions: Seq<SpawnAction>, call: Seq<char>, words: Seq<char>) -> SpawnStep {
    over(actions, SpawnEndView::Failed(ErrorView::Os(call, words)))
}

/// The system answers; an answer that was not asked for changes nothing.
pub open spec fn spawn_step(stage: SpawnStage, reply: SpawnReplyView) -> SpawnStep {
    match (stage, reply) {
        (SpawnStage::Session, SpawnReplyView::Session(session)) => if session
            == NO_ACTIVE_SESSION {
            over(Seq::empty(), SpawnEndView::NoSession)
        } else {
            going_on(SpawnStage::OpenToken { session }, seq![SpawnAction::OpenProcessToken])
        },
        (SpawnStage::OpenToken { session }, SpawnReplyView::Token(current)) => going_on(
            SpawnStage::Duplicate { session, current },
            seq![SpawnAction::DuplicateToken { token: current }],
        ),
        (SpawnStage::OpenToken { session }, SpawnReplyView::Refused(e)) => refused(
            Seq::empty(),
            "OpenProcessToken"@,
            e,
        ),
        (
            SpawnStage::Duplicate { session, current },
            SpawnReplyView::Token(token),
        ) => going_on(
            SpawnStage::Retarget { session, token },
            close_if(current).push(SpawnAction::SetTokenSession { token, session }),
        ),
        (SpawnStage::Duplicate { session, current }, SpawnReplyView::Refused(e)) => refused(
            close_if(current),
            "DuplicateTokenEx"@,
            e,
        ),
        (SpawnStage::Retarget { session, token }, SpawnReplyView::Done) => going_on(
            SpawnStage::Environment { session, token },
            seq![SpawnAction::CreateEnvironment { token }],
        ),
        (SpawnStage::Retarget { session, token }, SpawnReplyView::Refused(e)) => refused(
            close_if(token),
            "SetTokenInformation(TokenSessionId)"@,
            e,
        ),
        (
            SpawnStage::Environment { session, token },
            SpawnReplyView::Environment(environment),
        ) => going_on(
            SpawnStage::Create { session, token, environment },
            seq![SpawnAction::CreateProcess { token, environment }],
        ),
        (SpawnStage::Environment { session, token }, SpawnReplyView::Refused(e)) => refused(
            close_if(token),
            "CreateEnvironmentBlock"@,
            e,
        ),
        (
            SpawnStage::Create { session, token, environment },
            SpawnReplyView::Process { process, thread },
        ) => over(
            seq![SpawnAction::DestroyEnvironment { environment }] + close_if(token),
            SpawnEndView::Spawned { process, thread, session },
        ),
        (
            SpawnStage::Create { session, token, environment },
            SpawnReplyView::Refused(e),
        ) => refused(
            seq![SpawnAction::DestroyEnvironment { environment }] + close_if(token),
            "CreateProcessAsUserW"@,
            e,
        ),
        _ => going_on(stage, Seq::empty()),
    }
}

/// The start of a worker.
#[derive(Debug)]
pub struct SpawnWorker {
    stage: SpawnStage,
}

impl View for SpawnWorker {
    type V = SpawnStage;

    closed spec fn view(&self) -> SpawnStage {
        self.stage
    }
}

fn close_token(actions: &mut Vec<SpawnAction>, token: u64)
    ensures
        final(actions)@ == old(actions)@ + close_if(token),
{
    if token != 0 && token != INVALID_HANDLE {
        actions.push(SpawnAction::CloseToken { token });
    }
    assert(actions@ =~= old(actions)@ + close_if(token));
}

impl SpawnWorker {
    /// A start, with what is asked first.
    pub fn new() -> (r: (SpawnWorker, SpawnAction))
        ensures
            r.0@ == SpawnStage::Session,
            r.1 == SpawnAction::QuerySession,
    {
        (SpawnWorker { stage: SpawnStage::Session }, SpawnAction::QuerySession)
    }

    fn failed(&mut self, call: &str, words: String) -> (r: Option<SpawnEnd>)
        ensures
            final(self)@ == SpawnStage::Finished,
            opt_end_view(r) == Some(SpawnEndView::Failed(ErrorView::Os(call@, words@))),
    {
        self.stage = SpawnStage::Finished;
        Some(SpawnEnd::Failed(Error::Os(call.to_owned(), words)))
    }

    /// Takes an answer of the system.
    pub fn step(&mut self, reply: SpawnReply) -> (r: (Vec<SpawnAction>, Option<SpawnEnd>))
        ensures
            (SpawnStep { stage: final(self)@, actions: r.0@, end: opt_end_view(r.1) })
                == spawn_step(old(self)@, reply@),
    {
        let mut actions: Vec<SpawnAction> = Vec::new();
        let mut end: Option<SpawnEnd> = None;
        match self.stage {
            SpawnStage::Session => match reply {
                SpawnReply::Session(session) => {
                    if session == NO_ACTIVE_SESSION {
                        self.stage = SpawnStage::Finished;
                        end = Some(SpawnEnd::NoSession);
                    } else {
                        self.stage = SpawnStage::OpenToken { session };
                        actions.push(SpawnAction::OpenProcessToken);
                    }
                },
                _ => {},
            },
            SpawnStage::OpenToken { session } => match reply {
                SpawnReply::Token(current) => {
                    self.stage = SpawnStage::Duplicate { session, current };
                    actions.push(SpawnAction::DuplicateToken { token: current });
                },
                SpawnReply::Refused(e) => {
                    end = self.failed("OpenProcessToken", e);
                },
                _ => {},
            },
            SpawnStage::Duplicate { session, current } => match reply {
                SpawnReply::Token(token) => {
                    close_token(&mut actions, current);
                    self.stage = SpawnStage::Retarget { session, token };
                    actions.push(SpawnAction::SetTokenSession { token, session });
                },
                SpawnReply::Refused(e) => {
                    close_token(&mut actions, current);
                    end = self.failed("DuplicateTokenEx", e);
                },
                _ => {},
            },
            SpawnStage::Retarget { session, token } => match reply {
                SpawnReply::Done => {
                    self.stage = SpawnStage::Environment { session, token };
                    actions.push(SpawnAction::CreateEnvironment { token });
                },
                SpawnReply::Refused(e) => {
                    close_token(&mut actions, token);
                    end = self.failed("SetTokenInformation(TokenSessionId)", e);
                },
                _ => {},
            },
            SpawnStage::Environment { session, token } => match reply {
                SpawnReply::Environment(environment) => {
                    self.stage = SpawnStage::Create { session, token, environment };
                    actions.push(SpawnAction::CreateProcess { token, environment });
                },
                SpawnReply::Refused(e) => {
                    close_token(&mut actions, token);
                    end = self.failed("CreateEnvironmentBlock", e);
                },
                _ => {},
            },
            SpawnStage::Create { session, token, environment } => match reply {
                SpawnReply::Process { process, thread } => {
                    actions.push(SpawnAction::DestroyEnvironment { environment });
                    close_token(&mut actions, token);
                    self.stage = SpawnStage::Finished;
                    end = Some(SpawnEnd::Spawned { process, thread, session });
                },
                SpawnReply::Refused(e) => {
                    actions.push(SpawnAction::DestroyEnvironment { environment });
                    close_token(&mut actions, token);
                    end = self.failed("CreateProcessAsUserW", e);
                },
                _ => {},
            },
            SpawnStage::Finished => {},
        }
        assert(actions@ =~= spawn_step(old(self)@, reply@).actions);
        (actions, end)
    }
}

/// The command line of the worker: the quoted program and the subcommand.
pub fn worker_command_line(exe_path: &str) -> (r: String)
    ensures
        r@ == "\""@ + exe_path@ + "\" service-worker"@,
{
    text::concat3("\"", exe_path, "\" service-worker")
}

/// The desktop of the worker: the one the user works at.
pub fn worker_desktop() -> (r: &'static str)
    ensures
        r@ == "winsta0\\default"@,
{
    "winsta0\\default"
}

// ----- laws -----------------------------------------------------------------

/// Something of the system that has to be given back.
#[derive(Clone, Copy, PartialEq, Eq, Structural, Debug)]
pub enum Resource {
    /// A token.
    Token(u64),
    /// An environment.
    Environment(u64),
}

/// A token, counted where it is one.
pub open spec fn token_held(token: u64) -> Multiset<Resource> {
    if is_handle(token) {
        Multiset::singleton(Resource::Token(token))
    } else {
        Multiset::empty()
    }
}

/// What a stage holds.
pub open spec fn held(stage: SpawnStage) -> Multiset<Resource> {
    match stage {
        SpawnStage::Duplicate { current, .. } => token_held(current),
        SpawnStage::Retarget { token, .. } => token_held(token),
        SpawnStage::Environment { token, .. } => token_held(token),
        SpawnStage::Create { token, environment, .. } => token_held(token).insert(
            Resource::Environment(environment),
        ),
        _ => Multiset::empty(),
    }
}

/// What an answer hands out at a stage.
pub open spec fn obtained(stage: SpawnStage, reply: SpawnReplyView) -> Multiset<Resource> {
    match (stage, reply) {
        (SpawnStage::OpenToken { .. }, SpawnReplyView::Token(t)) => token_held(t),
        (SpawnStage::Duplicate { .. }, SpawnReplyView::Token(t)) => token_held(t),
        (SpawnStage::Environment { .. }, SpawnReplyView::Environment(e)) => Multiset::singleton(
            Resource::Environment(e),
        ),
        _ => Multiset::empty(),
    }
}

/// What an action gives back.
pub open spec fn given_back(a: SpawnAction) -> Multiset<Resource> {
    match a {
        SpawnAction::CloseToken { token } => Multiset::singleton(Resource::Token(token)),
        SpawnAction::DestroyEnvironment { environment } => Multiset::singleton(
            Resource::Environment(environment),
        ),
        _ => Multiset::empty(),
    }
}

/// What a list of actions gives back.
pub open spec fn all_given_back(actions: Seq<SpawnAction>) -> Multiset<Resource>
    decreases actions.len(),
{
    if actions.len() == 0 {
        Multiset::empty()
    } else {
        all_given_back(actions.drop_last()).add(given_back(actions.last()))
    }
}

proof fn lemma_given_back_push(actions: Seq<SpawnAction>, a: SpawnAction)
    ensures
        all_given_back(actions.push(a)) == all_given_back(actions).add(given_back(a)),
{
    assert(actions.push(a).drop_last() =~= actions);
}

proof fn lemma_close_if(token: u64)
    ensures
        all_given_back(close_if(token)) =~= token_held(token),
{
    reveal_with_fuel(all_given_back, 2);
    if is_handle(token) {
        lemma_given_back_push(Seq::empty(), SpawnAction::CloseToken { token });
        assert(close_if(token) =~= Seq::empty().push(SpawnAction::CloseToken { token }));
    }
}

proof fn lemma_nothing_given_back(a: SpawnAction)
    requires
        given_back(a) == Multiset::<Resource>::empty(),
    ensures
        all_given_back(seq![a]) =~= Multiset::empty(),
{
    lemma_given_back_push(Seq::empty(), a);
    assert(seq![a] =~= Seq::empty().push(a));
}

proof fn lemma_create_given_back(token: u64, environment: u64)
    ensures
        all_given_back(seq![SpawnAction::DestroyEnvironment { environment }] + close_if(token))
            =~= token_held(token).insert(Resource::Environment(environment)),
{
    let d = SpawnAction::DestroyEnvironment { environment };
    lemma_given_back_push(Seq::empty(), d);
    assert(seq![d] =~= Seq::empty().push(d));
    if is_handle(token) {
        let c = SpawnAction::CloseToken { token };
        lemma_given_back_push(seq![d], c);
        assert(seq![d] + close_if(token) =~= seq![d].push(c));
    } else {
        assert(seq![d] + close_if(token) =~= seq![d]);
    }
}

/// Nothing is lost and nothing is given back twice: at every answer, what is held and handed out
/// is what is held afterwards and given back.
pub proof fn law_resources_balance(stage: SpawnStage, reply: SpawnReplyView)
    ensures
        held(stage).add(obtained(stage, reply)) =~= held(spawn_step(stage, reply).stage).add(
            all_given_back(spawn_step(stage, reply).actions),
        ),
{
    let r = spawn_step(stage, reply);
    match (stage, reply) {
        (SpawnStage::Session, SpawnReplyView::Session(session)) => {
            lemma_nothing_given_back(SpawnAction::OpenProcessToken);
        },
        (SpawnStage::OpenToken { session }, SpawnReplyView::Token(current)) => {
            lemma_nothing_given_back(SpawnAction::DuplicateToken { token: current });
        },
        (SpawnStage::Duplicate { session, current }, SpawnReplyView::Token(token)) => {
            lemma_close_if(current);
            lemma_given_back_push(
                close_if(current),
                SpawnAction::SetTokenSession { token, session },
            );
        },
        (SpawnStage::Duplicate { session, current }, SpawnReplyView::Refused(e)) => {
            lemma_close_if(current);
        },
        (SpawnStage::Retarget { session, token }, SpawnReplyView::Done) => {
            lemma_nothing_given_back(SpawnAction::CreateEnvironment { token });
        },
        (SpawnStage::Retarget { session, token }, SpawnReplyView::Refused(e)) => {
            lemma_close_if(token);
        },
        (SpawnStage::Environment { session, token }, SpawnReplyView::Environment(env)) => {
            lemma_nothing_given_back(SpawnAction::CreateProcess { token, environment: env });
        },
        (SpawnStage::Environment { session, token }, SpawnReplyView::Refused(e)) => {
            lemma_close_if(token);
        },
        (SpawnStage::Create { session, token, environment }, SpawnReplyView::Process { .. }) => {
            lemma_create_given_back(token, environment);
        },
        (SpawnStage::Create { session, token, environment }, SpawnReplyView::Refused(e)) => {
            lemma_create_given_back(token, environment);
        },
        _ => {},
    }
}

/// When the start of a worker is over, however it ended, nothing is held any more.
pub proof fn law_nothing_held_at_the_end(stage: SpawnStage, reply: SpawnReplyView)
    ensures
        spawn_step(stage, reply).end is Some ==> spawn_step(stage, reply).stage
            == SpawnStage::Finished,
        held(SpawnStage::Finished) == Multiset::<Resource>::empty(),
{
}

/// The worker is started with the copy of the token that was moved to the session at the
/// console, and never with the service's own token.
pub proof fn law_worker_gets_moved_token(
    session: u32,
    current: u64,
    token: u64,
    environment: u64,
)
    requires
        session != NO_ACTIVE_SESSION,
    ensures
        ({
            let s0 = spawn_step(SpawnStage::Session, SpawnReplyView::Session(session));
            let s1 = spawn_step(s0.stage, SpawnReplyView::Token(current));
            let s2 = spawn_step(s1.stage, SpawnReplyView::Token(token));
            let s3 = spawn_step(s2.stage, SpawnReplyView::Done);
            let s4 = spawn_step(s3.stage, SpawnReplyView::Environment(environment));
            &&& s2.actions.last() == SpawnAction::SetTokenSession { token, session }
            &&& s4.actions == seq![SpawnAction::CreateProcess { token, environment }]
        }),
{
}

/// A call into the system that is refused ends the start with the name of the call and the words of
/// the system.
pub proof fn law_refusal_names_call(
    session: u32,
    current: u64,
    token: u64,
    environment: u64,
    e: Seq<char>,
)
    ensures
        spawn_step(SpawnStage::OpenToken { session }, SpawnReplyView::Refused(e)).end == Some(
            SpawnEndView::Failed(ErrorView::Os("OpenProcessToken"@, e)),
        ),
        spawn_step(SpawnStage::Duplicate { session, current }, SpawnReplyView::Refused(e)).end
            == Some(SpawnEndView::Failed(ErrorView::Os("DuplicateTokenEx"@, e))),
        spawn_step(SpawnStage::Retarget { session, token }, SpawnReplyView::Refused(e)).end == Some(
            SpawnEndView::Failed(ErrorView::Os("SetTokenInformation(TokenSessionId)"@, e)),
        ),
        spawn_step(SpawnStage::Environment { session, token }, SpawnReplyView::Refused(e)).end
            == Some(SpawnEndView::Failed(ErrorView::Os("CreateEnvironmentBlock"@, e))),
        spawn_step(
            SpawnStage::Create { session, token, environment },
            SpawnReplyView::Refused(e),
        ).end == Some(SpawnEndView::Failed(ErrorView::Os("CreateProcessAsUserW"@, e))),
{
}

/// A worker that is started is handed over with its process, its thread and the session it runs in;
/// nobody at the console means that none is started, and no call is made.
pub proof fn law_worker_is_handed_over(
    session: u32,
    token: u64,
    environment: u64,
    process: u64,
    thread: u64,
)
    ensures
        spawn_step(
            SpawnStage::Create { session, token, environment },
            SpawnReplyView::Process { process, thread },
        ).end == Some(SpawnEndView::Spawned { process, thread, session }),
        ({
            let r = spawn_step(SpawnStage::Session, SpawnReplyView::Session(NO_ACTIVE_SESSION));
            &&& r.end == Some(SpawnEndView::NoSession)
            &&& r.actions.len() == 0
        }),
        spawn_step(SpawnStage::Finished, SpawnReplyView::Done).actions.len() == 0,
{
}

/// A token is given back exactly where it is a handle: neither none nor the invalid one.
pub proof fn law_token_is_closed(token: u64)
    ensures
        token != 0 && token != INVALID_HANDLE ==> close_if(token) == seq![
            SpawnAction::CloseToken { token },
        ],
        token == 0 || token == INVALID_HANDLE ==> close_if(token).len() == 0,
{
}

} // verus!
